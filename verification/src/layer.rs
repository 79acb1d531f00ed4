//! The session layer around a request: which token a request presents is
//! the caller's to read from its cookie, and what the layer decides here is
//! what to do with the session once the handler is done.

use vstd::prelude::*;
use vstd::string::StringExecFns;
use crate::sessions::{PersistPlan, Session};
use crate::store::Store;

verus! {

/// Seconds that the session cookie lives in the client: 30 days.
pub const COOKIE_MAX_AGE_SECONDS: u64 = 2_592_000;

/// The name of the session cookie.
pub open spec fn cookie_name() -> Seq<char> {
    "sid"@
}

/// The `SameSite` attribute of a cookie.
#[derive(Debug, Clone, Copy, PartialEq, Eq, Structural)]
pub enum SameSite {
    /// Sent with requests from the site itself only.
    Strict,
    /// Sent also when the user follows a link to the site.
    Lax,
    /// Sent with every request.
    Unrestricted,
}

/// A cookie, by its attributes.
#[derive(Debug)]
pub struct SessionCookie {
    pub name: String,
    pub value: String,
    pub path: String,
    pub http_only: bool,
    pub same_site: SameSite,
    /// Seconds to live, or `None` for a cookie that only names what to remove.
    pub max_age_seconds: Option<u64>,
}

/// What to do with the client's cookie.
#[derive(Debug)]
pub enum CookieAction {
    /// Tell the client to drop the cookie.
    Remove(SessionCookie),
    /// Hand the client the cookie.
    Add(SessionCookie),
    /// Leave the client's cookies alone.
    Keep,
}

/// What the layer does after the handler: what to write to the cache, if
/// anything, and what to do with the cookie.
#[derive(Debug)]
pub struct Conclusion {
    pub persist: Option<PersistPlan>,
    pub cookie: CookieAction,
}

impl SessionCookie {
    /// The cookie has the attributes of every session cookie: the name
    /// `sid`, the path `/`, hidden from scripts, `SameSite=Lax`.
    pub open spec fn is_session_cookie(self) -> bool {
        &&& self.name@ == cookie_name()
        &&& self.path@ == "/"@
        &&& self.http_only
        &&& self.same_site == SameSite::Lax
    }

    /// The cookie that carries the token `sid` for 30 days.
    pub fn issue(sid: String) -> (cookie: SessionCookie)
        ensures
            cookie.is_session_cookie(),
            cookie.value@ == sid@,
            cookie.max_age_seconds == Some(COOKIE_MAX_AGE_SECONDS),
    {
        SessionCookie {
            name: String::from_str("sid"),
            value: sid,
            path: String::from_str("/"),
            http_only: true,
            same_site: SameSite::Lax,
            max_age_seconds: Some(COOKIE_MAX_AGE_SECONDS),
        }
    }

    /// The empty cookie that names the session cookie for removal.
    pub fn cleared() -> (cookie: SessionCookie)
        ensures
            cookie.is_session_cookie(),
            cookie.value@ == Seq::<char>::empty(),
            cookie.max_age_seconds is None,
    {
        SessionCookie {
            name: String::from_str("sid"),
            value: String::new(),
            path: String::from_str("/"),
            http_only: true,
            same_site: SameSite::Lax,
            max_age_seconds: None,
        }
    }
}

/// Decides what follows a handler's response. `cleared` says that the
/// handler asked for the session to be dropped (a logout); `stored` is the
/// store it handed back, if it wrote to one. A logout wins: the cookie is
/// removed and nothing is persisted. Else a store that was handed back is
/// persisted and its token is set as the cookie. Else nothing happens.
pub fn conclude(session: &Session, cleared: bool, stored: Option<Store>) -> (conclusion: Conclusion)
    ensures
        match (cleared, stored) {
            (true, _) => {
                &&& conclusion.persist is None
                &&& conclusion.cookie matches CookieAction::Remove(cookie)
                &&& cookie.is_session_cookie()
                &&& cookie.value@.len() == 0
                &&& cookie.max_age_seconds is None
            },
            (false, Some(store)) => {
                &&& conclusion.persist matches Some(plan)
                &&& plan.persists(store@)
                &&& conclusion.cookie matches CookieAction::Add(cookie)
                &&& cookie.is_session_cookie()
                &&& cookie.value@ == store@.sid
                &&& cookie.max_age_seconds == Some(COOKIE_MAX_AGE_SECONDS)
            },
            (false, None) => conclusion.persist is None && conclusion.cookie is Keep,
        },
{
    if cleared {
        return Conclusion { persist: None, cookie: CookieAction::Remove(SessionCookie::cleared()) };
    }
    match stored {
        Some(store) => {
            let sid = store.sid();
            let plan = session.set_store(store);
            Conclusion { persist: Some(plan), cookie: CookieAction::Add(SessionCookie::issue(sid)) }
        },
        None => Conclusion { persist: None, cookie: CookieAction::Keep },
    }
}

} // verus!
