//! Users, as the cache service keeps them: a hash with the fields `id` and
//! `name` under the key `user:` and the number, and a pointer from each
//! social identity to a user's number.

use vstd::prelude::*;
use vstd::string::StringExecFns;
use vstd::utf8::encode_utf8;
use crate::decimal::{decimal, decimal_text, parse_u64, parsed_u64};
use crate::error::{Error, Resource};
use crate::store::{field_value, pairs_map};

verus! {

/// A user of the site.
#[derive(Debug)]
pub struct User {
    pub id: u64,
    pub name: String,
}

/// What a hash of the cache holds of a user: a user, or nothing where the
/// hash is empty.
#[derive(Debug)]
pub struct MaybeUser(pub Option<User>);

/// A field of a hash that is missing or cannot be read.
#[derive(Debug, Clone, Copy, PartialEq, Eq, Structural)]
pub enum FieldError {
    UserId,
    UserName,
    PostId,
    PostAuthorId,
    PostDate,
    PostContent,
    PostTitle,
    PostUrlFragment,
}

impl FieldError {
    /// The words of the error.
    pub fn message(&self) -> (text: &'static str)
        ensures
            text@ == match self {
                FieldError::UserId => "Unexpected user id"@,
                FieldError::UserName => "Unexpected user name"@,
                FieldError::PostId => "Unexpected post id"@,
                FieldError::PostAuthorId => "Unexpected post author_id"@,
                FieldError::PostDate => "Unexpected post date"@,
                FieldError::PostContent => "Unexpected post content"@,
                FieldError::PostTitle => "Unexpected post title"@,
                FieldError::PostUrlFragment => "Unexpected post url_fragment"@,
            },
    {
        match self {
            FieldError::UserId => "Unexpected user id",
            FieldError::UserName => "Unexpected user name",
            FieldError::PostId => "Unexpected post id",
            FieldError::PostAuthorId => "Unexpected post author_id",
            FieldError::PostDate => "Unexpected post date",
            FieldError::PostContent => "Unexpected post content",
            FieldError::PostTitle => "Unexpected post title",
            FieldError::PostUrlFragment => "Unexpected post url_fragment",
        }
    }
}

/// The number that the field `name` of a hash writes, if the hash has the
/// field and the field is a number.
pub open spec fn number_field(hash: Map<Seq<char>, Seq<char>>, name: Seq<char>) -> Option<u64> {
    if hash.contains_key(name) {
        parsed_u64(encode_utf8(hash[name]))
    } else {
        None
    }
}

/// Reads the number that the field `name` of a hash writes.
pub fn read_number(hash: &Vec<(String, String)>, name: &str) -> (r: Option<u64>)
    ensures
        r == number_field(pairs_map(hash@), name@),
{
    match field_value(hash, name) {
        Some(text) => parse_u64(text.as_str()),
        None => None,
    }
}

/// The cache key of the user with the number `id`.
pub open spec fn user_key_text(id: u64) -> Seq<char> {
    "user:"@ + decimal(id as nat)
}

/// The cache key of the pointer from a social identity to a user.
pub open spec fn social_user_key_text(social_id: Seq<char>) -> Seq<char> {
    "socialUser:"@ + social_id
}

/// The cache key of the user with the number `id`.
pub fn user_key(id: u64) -> (key: String)
    ensures
        key@ == user_key_text(id),
{
    String::from_str("user:").concat(decimal_text(id).as_str())
}

/// The cache key of the pointer from a social identity to a user.
pub fn social_user_key(social_id: &str) -> (key: String)
    ensures
        key@ == social_user_key_text(social_id@),
{
    String::from_str("socialUser:").concat(social_id)
}

impl MaybeUser {
    /// What `from_hash` makes of a hash.
    pub open spec fn read(hash: Seq<(String, String)>) -> Result<Option<(u64, Seq<char>)>, FieldError> {
        let fields = pairs_map(hash);
        if hash.len() == 0 {
            Ok(None)
        } else {
            match number_field(fields, "id"@) {
                None => Err(FieldError::UserId),
                Some(id) => if fields.contains_key("name"@) {
                    Ok(Some((id, fields["name"@])))
                } else {
                    Err(FieldError::UserName)
                },
            }
        }
    }

    /// The number and the name of the user, if there is one.
    pub open spec fn view(self) -> Option<(u64, Seq<char>)> {
        match self.0 {
            Some(user) => Some((user.id, user.name@)),
            None => None,
        }
    }

    /// Reads a user out of a hash of the cache. An empty hash is no user;
    /// a hash with fields needs an `id` that is a number, and a `name`.
    pub fn from_hash(hash: &Vec<(String, String)>) -> (r: Result<MaybeUser, FieldError>)
        ensures
            match r {
                Ok(user) => MaybeUser::read(hash@) == Ok::<_, FieldError>(user.view()),
                Err(e) => MaybeUser::read(hash@) == Err::<Option<(u64, Seq<char>)>, _>(e),
            },
    {
        if hash.len() == 0 {
            return Ok(MaybeUser(None));
        }
        let id = match read_number(hash, "id") {
            Some(id) => id,
            None => {
                return Err(FieldError::UserId);
            },
        };
        let name = match field_value(hash, "name") {
            Some(name) => name,
            None => {
                return Err(FieldError::UserName);
            },
        };
        Ok(MaybeUser(Some(User { id, name })))
    }

    /// The user, if there is one.
    pub fn into_option(self) -> (user: Option<User>)
        ensures
            user == self.0,
    {
        self.0
    }

    /// The user with the number `id` that was asked for, or the error that
    /// says that there is none.
    pub fn found(self, id: u64) -> (r: Result<User, Error>)
        ensures
            match self.0 {
                Some(user) => r == Ok::<User, Error>(user),
                None => r == Err::<User, Error>(Error::ResourceNotFound(Resource::User(id))),
            },
    {
        match self.0 {
            Some(user) => Ok(user),
            None => Err(Error::ResourceNotFound(Resource::User(id))),
        }
    }
}

} // verus!
