//! The errors that reach a caller. What goes wrong inside the session
//! layer (a token that does not verify, a cache that does not answer) is
//! not among them: it ends in an anonymous session, never in an error.

use vstd::prelude::*;
use vstd::string::StringExecFns;
use crate::decimal::{decimal, decimal_text};

verus! {

/// A thing that was asked for by its number.
#[derive(Debug, Clone, Copy, PartialEq, Eq, Structural)]
pub enum Resource {
    User(u64),
    Post(u64),
}

impl Resource {
    /// How the resource is named in a message: `User(5)`, `Post(12)`.
    pub open spec fn text(self) -> Seq<char> {
        match self {
            Resource::User(id) => "User("@ + decimal(id as nat) + ")"@,
            Resource::Post(id) => "Post("@ + decimal(id as nat) + ")"@,
        }
    }

    /// The name of the resource in a message.
    pub fn describe(&self) -> (text: String)
        ensures
            text@ == self.text(),
    {
        match self {
            Resource::User(id) => String::from_str("User(").concat(
                decimal_text(*id).as_str(),
            ).concat(")"),
            Resource::Post(id) => String::from_str("Post(").concat(
                decimal_text(*id).as_str(),
            ).concat(")"),
        }
    }
}

/// Why a request failed. The variants that stand for a fault of a service
/// carry the service's own words.
#[derive(Debug)]
pub enum Error {
    /// The cache service answered with an error.
    Redis(String),
    /// A request to another server failed.
    Reqwest(String),
    /// A page could not be rendered: the page's name, then the reason.
    Render(String, String),
    /// No such user or post.
    ResourceNotFound(Resource),
    /// The caller is not who the request needs: no resolved user, or an
    /// OAuth state that does not match.
    Unauthorized,
    /// No such page.
    NotFound,
    /// A service did not answer in time.
    Timeout(String),
    /// No connection to the cache service could be had.
    Pool(String),
    /// The pool of connections could not be set up.
    CreatePool(String),
}

/// An error as the API hands it out.
#[derive(Debug)]
pub struct JsonError {
    pub code: u16,
    pub message: String,
}

impl Error {
    /// The HTTP status of the error: 404 where something was not found, 401
    /// where the caller is not authorized, 500 for every fault of a service.
    pub open spec fn status_of(self) -> u16 {
        match self {
            Error::NotFound => 404,
            Error::ResourceNotFound(_) => 404,
            Error::Unauthorized => 401,
            _ => 500,
        }
    }

    /// The words of the error.
    pub open spec fn message_of(self) -> Seq<char> {
        match self {
            Error::Redis(words) => "Redis: "@ + words@,
            Error::Reqwest(words) => "Reqwest: "@ + words@,
            Error::Render(page, words) => "Failed to render "@ + page@ + " "@ + words@,
            Error::ResourceNotFound(resource) => "Unable to find: "@ + resource.text(),
            Error::Unauthorized => "Unauthorized"@,
            Error::NotFound => "Not found"@,
            Error::Timeout(words) => "Timeout: "@ + words@,
            Error::Pool(words) => "Pool: "@ + words@,
            Error::CreatePool(words) => "Create Pool: "@ + words@,
        }
    }

    /// The HTTP status of the error.
    pub fn status_code(&self) -> (code: u16)
        ensures
            code == self.status_of(),
    {
        match self {
            Error::NotFound => 404,
            Error::ResourceNotFound(_) => 404,
            Error::Unauthorized => 401,
            _ => 500,
        }
    }

    /// The words of the error.
    pub fn message(&self) -> (text: String)
        ensures
            text@ == self.message_of(),
    {
        match self {
            Error::Redis(words) => String::from_str("Redis: ").concat(words.as_str()),
            Error::Reqwest(words) => String::from_str("Reqwest: ").concat(words.as_str()),
            Error::Render(page, words) => String::from_str("Failed to render ").concat(
                page.as_str(),
            ).concat(" ").concat(words.as_str()),
            Error::ResourceNotFound(resource) => String::from_str("Unable to find: ").concat(
                resource.describe().as_str(),
            ),
            Error::Unauthorized => String::from_str("Unauthorized"),
            Error::NotFound => String::from_str("Not found"),
            Error::Timeout(words) => String::from_str("Timeout: ").concat(words.as_str()),
            Error::Pool(words) => String::from_str("Pool: ").concat(words.as_str()),
            Error::CreatePool(words) => String::from_str("Create Pool: ").concat(words.as_str()),
        }
    }

    /// The error as the API hands it out: its status and its words.
    pub fn json(&self) -> (json: JsonError)
        ensures
            json.code == self.status_of(),
            json.message@ == self.message_of(),
    {
        JsonError { code: self.status_code(), message: self.message() }
    }
}

impl JsonError {
    /// Whether the error is a fault of the server, which is worth a line in
    /// its log: a status from 500 to 599.
    pub fn is_server_error(&self) -> (r: bool)
        ensures
            r == (500 <= self.code < 600),
    {
        self.code >= 500 && self.code < 600
    }
}

} // verus!
