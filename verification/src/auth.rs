//! Social login with an OAuth provider: what the provider's answers hold,
//! the one-time value that ties the two legs of a login together, and the
//! wrapper that marks a resource as used on behalf of a user.
//!
//! A login starts with a fresh random value that is kept in the session
//! under `socialNounce` and sent along as the `state` of the request. The
//! provider hands it back on the return leg; where it differs from what the
//! session holds the login is refused. After the exchange the session holds
//! the user's identity with the provider under `socialUser`.

use vstd::prelude::*;
use vstd::string::StringExecFns;
use vstd::utf8::encode_utf8;
use crate::error::Error;
use crate::store::{Store, StoreState};
use crate::users::User;

verus! {

/// The query of the provider's redirect back to the site.
#[derive(Debug)]
pub struct OauthResponse {
    pub state: String,
    pub code: String,
}

/// The form that is posted to the provider to exchange a code for tokens.
#[derive(Debug)]
pub struct OauthTokenRequest<'a> {
    pub code: &'a str,
    pub client_id: &'a str,
    pub client_secret: &'a str,
    pub redirect_uri: &'a str,
    pub grant_type: &'a str,
}

/// The provider's answer to the exchange.
#[derive(Debug)]
pub struct OauthTokenResponse {
    pub access_token: String,
    pub id_token: GoogleToken,
    pub expires_in: u64,
    pub token_type: String,
}

/// An identity token, taken apart but not verified.
#[derive(Debug)]
pub struct GoogleToken {
    pub header: GoogleTokenHeader,
    pub claims: GoogleTokenClaims,
}

/// The header of an identity token.
#[derive(Debug)]
pub struct GoogleTokenHeader {
    pub alg: String,
    pub kid: String,
    pub typ: String,
}

/// The claims of an identity token.
#[derive(Debug)]
pub struct GoogleTokenClaims {
    pub iss: String,
    pub sub: String,
    pub email: String,
    pub name: String,
}

/// A resource that is used on behalf of a signed-in user.
pub struct Authenticated<T> {
    user: User,
    resource: T,
}

impl<T> Authenticated<T> {
    /// The user on whose behalf the resource is used.
    pub closed spec fn user_view(&self) -> User {
        self.user
    }

    /// The resource.
    pub closed spec fn resource_view(&self) -> T {
        self.resource
    }

    /// Puts `resource` in the hands of `user`.
    pub fn new(user: User, resource: T) -> (authenticated: Authenticated<T>)
        ensures
            authenticated.user_view() == user,
            authenticated.resource_view() == resource,
    {
        Authenticated { user, resource }
    }

    /// The user on whose behalf the resource is used.
    pub fn user(&self) -> (user: &User)
        ensures
            *user == self.user_view(),
    {
        &self.user
    }

    /// The resource.
    pub fn resource(&self) -> (resource: &T)
        ensures
            *resource == self.resource_view(),
    {
        &self.resource
    }

    /// The user and the resource, parted again.
    pub fn into_parts(self) -> (parts: (User, T))
        ensures
            parts.0 == self.user_view(),
            parts.1 == self.resource_view(),
    {
        (self.user, self.resource)
    }
}

/// The name under which a session keeps the one-time value of a login.
pub open spec fn social_nounce_name() -> Seq<char> {
    "socialNounce"@
}

/// The name under which a session keeps the signed-in identity.
pub open spec fn social_user_name() -> Seq<char> {
    "socialUser"@
}

/// The address that the provider sends the user back to.
pub open spec fn redirect_uri_text(base_url: Seq<char>) -> Seq<char> {
    base_url + "auth/google/return"@
}

/// The identity of a user with the provider, as sessions and the cache
/// name it.
pub open spec fn social_id_text(sub: Seq<char>) -> Seq<char> {
    "google:"@ + sub
}

/// The session holds `state` as the one-time value of a login.
pub open spec fn state_matches(values: Map<Seq<char>, Seq<char>>, state: Seq<char>) -> bool {
    values.contains_key(social_nounce_name()) && values[social_nounce_name()] == state
}

/// The address that the provider sends the user back to.
pub fn redirect_uri(base_url: &str) -> (uri: String)
    ensures
        uri@ == redirect_uri_text(base_url@),
{
    String::from_str(base_url).concat("auth/google/return")
}

/// The parameters of the request that sends the user to the provider.
pub open spec fn login_params_of(
    client_id: Seq<char>,
    redirect_uri: Seq<char>,
    state: Seq<char>,
    nounce: Seq<char>,
) -> Seq<(Seq<char>, Seq<char>)> {
    seq![
        ("client_id"@, client_id),
        ("response_type"@, "code"@),
        ("scope"@, "openid email profile"@),
        ("redirect_uri"@, redirect_uri),
        ("state"@, state),
        ("nounce"@, nounce),
    ]
}

/// A list of pairs, text by text.
pub open spec fn pairs_text(pairs: Seq<(String, String)>) -> Seq<(Seq<char>, Seq<char>)> {
    Seq::new(pairs.len(), |i: int| (pairs[i].0@, pairs[i].1@))
}

/// The parameters of the request that sends the user to the provider.
pub fn login_params(client_id: &str, redirect_uri: &str, state: &str, nounce: &str) -> (params: Vec<
    (String, String),
>)
    ensures
        pairs_text(params@) == login_params_of(client_id@, redirect_uri@, state@, nounce@),
{
    let mut params: Vec<(String, String)> = Vec::new();
    params.push((String::from_str("client_id"), String::from_str(client_id)));
    params.push((String::from_str("response_type"), String::from_str("code")));
    params.push((String::from_str("scope"), String::from_str("openid email profile")));
    params.push((String::from_str("redirect_uri"), String::from_str(redirect_uri)));
    params.push((String::from_str("state"), String::from_str(state)));
    params.push((String::from_str("nounce"), String::from_str(nounce)));
    assert(pairs_text(params@) =~= login_params_of(client_id@, redirect_uri@, state@, nounce@));
    params
}

/// The address that `url::Url::parse` makes of a text, or `None` where the
/// text is no absolute URL.
pub uninterp spec fn parsed_url(text: Seq<char>) -> Option<Seq<char>>;

/// The address that `url::Url::parse_with_params` makes of an absolute URL
/// and a list of query parameters, or `None` where it does not parse.
pub uninterp spec fn url_with_params(
    endpoint: Seq<char>,
    params: Seq<(Seq<char>, Seq<char>)>,
) -> Option<Seq<char>>;

#[verifier::external_type_specification]
#[verifier::external_body]
pub struct ExParseError(url::ParseError);

/// The most bytes that a list of parameters adds to a query: each byte of
/// a name or a value is written as at most three, and each pair brings a
/// `=` and a `&` at most.
pub open spec fn query_bytes(params: Seq<(Seq<char>, Seq<char>)>) -> nat
    decreases params.len(),
{
    if params.len() == 0 {
        0
    } else {
        query_bytes(params.drop_last()) + 3 * encode_utf8(params.last().0).len() + 3
            * encode_utf8(params.last().1).len() + 2
    }
}

/// The parameters fit the address: the address as it is parsed, a `?` and
/// the parameters at their longest stay within the 4 GiB that the `url`
/// crate counts an address in.
pub open spec fn query_fits(endpoint: Seq<char>, params: Seq<(Seq<char>, Seq<char>)>) -> bool {
    match parsed_url(endpoint) {
        Some(address) => encode_utf8(address).len() + 1 + query_bytes(params) <= u32::MAX,
        None => true,
    }
}

/// Calls `url::Url::parse` and takes the address as text.
#[verifier::external_body]
pub(crate) fn parse_url(text: &str) -> (r: Result<String, url::ParseError>)
    ensures
        match r {
            Ok(address) => parsed_url(text@) == Some(address@),
            Err(_) => parsed_url(text@) is None,
        },
{
    url::Url::parse(text).map(String::from)
}

/// Calls `url::Url::parse_with_params`, which parses `endpoint` as
/// `Url::parse` does, fails where that fails, and else appends `params` to
/// the query; and takes the address as text. The crate keeps the places of
/// an address's parts in 32 bits: an address that grows beyond that while
/// the parameters are appended is left out.
#[verifier::external_body]
pub(crate) fn url_with_query(endpoint: &str, params: &Vec<(String, String)>) -> (r: Result<
    String,
    url::ParseError,
>)
    requires
        query_fits(endpoint@, pairs_text(params@)),
    ensures
        match r {
            Ok(address) => url_with_params(endpoint@, pairs_text(params@)) == Some(address@)
                && parsed_url(endpoint@) is Some,
            Err(_) => url_with_params(endpoint@, pairs_text(params@)) is None && parsed_url(
                endpoint@,
            ) is None,
        },
{
    url::Url::parse_with_params(endpoint, params).map(String::from)
}

/// The most bytes that `params` adds to a query, or `None` where the
/// count has no `usize`.
pub fn count_query_bytes(params: &Vec<(String, String)>) -> (r: Option<usize>)
    ensures
        match r {
            Some(count) => count == query_bytes(pairs_text(params@)),
            None => query_bytes(pairs_text(params@)) > usize::MAX,
        },
{
    let mut count: usize = 0;
    let mut i: usize = 0;
    while i < params.len()
        invariant
            i <= params@.len(),
            count == query_bytes(pairs_text(params@).subrange(0, i as int)),
        decreases params@.len() - i,
    {
        let ghost upto = pairs_text(params@).subrange(0, i + 1);
        proof {
            assert(upto.drop_last() =~= pairs_text(params@).subrange(0, i as int));
            assert(upto.last() == (params@[i as int].0@, params@[i as int].1@));
            lemma_query_bytes_grow(pairs_text(params@), i + 1);
        }
        let name: usize = params[i].0.as_str().as_bytes().len();
        let value: usize = params[i].1.as_str().as_bytes().len();
        let pair = match name.checked_mul(3) {
            Some(names) => match value.checked_mul(3) {
                Some(values) => match names.checked_add(values) {
                    Some(both) => both.checked_add(2),
                    None => None,
                },
                None => None,
            },
            None => None,
        };
        let next = match pair {
            Some(pair) => count.checked_add(pair),
            None => None,
        };
        match next {
            Some(next) => {
                count = next;
            },
            None => {
                return None;
            },
        }
        i += 1;
    }
    proof {
        assert(pairs_text(params@).subrange(0, i as int) =~= pairs_text(params@));
    }
    Some(count)
}

/// A list of parameters adds no fewer bytes than any of its beginnings.
pub proof fn lemma_query_bytes_grow(params: Seq<(Seq<char>, Seq<char>)>, upto: int)
    requires
        0 <= upto <= params.len(),
    ensures
        query_bytes(params.subrange(0, upto)) <= query_bytes(params),
    decreases params.len() - upto,
{
    if upto == params.len() {
        assert(params.subrange(0, upto) =~= params);
    } else {
        lemma_query_bytes_grow(params, upto + 1);
        assert(params.subrange(0, upto + 1).drop_last() =~= params.subrange(0, upto));
    }
}

/// The address to send a user to for a login: the provider's `endpoint`
/// with the parameters of `login_params`. `None` where `endpoint` is no
/// absolute URL, and where the address with its parameters would pass the
/// 4 GiB that an address may have.
pub fn login_url(
    endpoint: &str,
    client_id: &str,
    redirect_uri: &str,
    state: &str,
    nounce: &str,
) -> (r: Option<String>)
    ensures
        match r {
            Some(address) => {
                &&& parsed_url(endpoint@) is Some
                &&& query_fits(
                    endpoint@,
                    login_params_of(client_id@, redirect_uri@, state@, nounce@),
                )
                &&& url_with_params(
                    endpoint@,
                    login_params_of(client_id@, redirect_uri@, state@, nounce@),
                ) == Some(address@)
            },
            None => {
                ||| parsed_url(endpoint@) is None
                ||| !query_fits(
                    endpoint@,
                    login_params_of(client_id@, redirect_uri@, state@, nounce@),
                )
            },
        },
{
    let params = login_params(client_id, redirect_uri, state, nounce);
    let parsed = match parse_url(endpoint) {
        Ok(parsed) => parsed,
        Err(_) => {
            return None;
        },
    };
    let count = match count_query_bytes(&params) {
        Some(count) => count,
        None => {
            return None;
        },
    };
    let limit: usize = if usize::MAX as u64 > u32::MAX as u64 {
        u32::MAX as usize
    } else {
        usize::MAX
    };
    let length: usize = parsed.as_str().as_bytes().len();
    assert(limit == u32::MAX);
    if length >= limit || count > limit - length - 1 {
        return None;
    }
    match url_with_query(endpoint, &params) {
        Ok(address) => Some(address),
        Err(_) => None,
    }
}

/// Starts a login: the session remembers the one-time value under
/// `socialNounce`.
pub fn begin_login(store: &mut Store, social_nounce: &str)
    ensures
        final(store)@ == (StoreState {
            values: old(store)@.values.insert(social_nounce_name(), social_nounce@),
            ..old(store)@
        }),
{
    store.set(String::from_str("socialNounce"), String::from_str(social_nounce));
}

impl OauthResponse {
    /// Holds the provider's `state` against the one-time value in the
    /// session. Where the session has none, or another, the caller is not
    /// authorized; the session is left as it is either way.
    pub fn check_state(&self, store: &Store) -> (r: Result<(), Error>)
        ensures
            r == if state_matches(store@.values, self.state@) {
                Ok::<(), Error>(())
            } else {
                Err::<(), Error>(Error::Unauthorized)
            },
    {
        match store.get("socialNounce") {
            Some(expected) => {
                if expected == self.state {
                    Ok(())
                } else {
                    Err(Error::Unauthorized)
                }
            },
            None => Err(Error::Unauthorized),
        }
    }

    /// The form to post for the exchange of this answer's code.
    pub fn token_request<'a>(
        &'a self,
        client_id: &'a str,
        client_secret: &'a str,
        redirect_uri: &'a str,
    ) -> (request: OauthTokenRequest<'a>)
        ensures
            request.code@ == self.code@,
            request.client_id@ == client_id@,
            request.client_secret@ == client_secret@,
            request.redirect_uri@ == redirect_uri@,
            request.grant_type@ == "authorization_code"@,
    {
        OauthTokenRequest {
            code: self.code.as_str(),
            client_id,
            client_secret,
            redirect_uri,
            grant_type: "authorization_code",
        }
    }
}

impl GoogleToken {
    /// The identity of the token's subject, as sessions and the cache name
    /// it.
    pub fn social_id(&self) -> (id: String)
        ensures
            id@ == social_id_text(self.claims.sub@),
    {
        String::from_str("google:").concat(self.claims.sub.as_str())
    }
}

/// Ends a login: the session remembers the identity of the token's subject
/// under `socialUser`.
pub fn finish_login(store: &mut Store, tokens: &OauthTokenResponse)
    ensures
        final(store)@ == (StoreState {
            values: old(store)@.values.insert(
                social_user_name(),
                social_id_text(tokens.id_token.claims.sub@),
            ),
            ..old(store)@
        }),
{
    store.set(String::from_str("socialUser"), tokens.id_token.social_id());
}

/// The signed-in identity of a request: what its session holds under
/// `socialUser`. A request without a session, or whose session holds none,
/// is not authorized.
pub fn social_identity(store: Option<&Store>) -> (r: Result<String, Error>)
    ensures
        match store {
            Some(store) if store@.values.contains_key(social_user_name()) => r matches Ok(id)
                && id@ == store@.values[social_user_name()],
            _ => r == Err::<String, Error>(Error::Unauthorized),
        },
{
    match store {
        Some(store) => match store.get("socialUser") {
            Some(id) => Ok(id),
            None => Err(Error::Unauthorized),
        },
        None => Err(Error::Unauthorized),
    }
}

} // verus!
