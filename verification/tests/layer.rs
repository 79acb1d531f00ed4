use nickmass_com::layer::{
    conclude, CookieAction, SameSite, SessionCookie, COOKIE_MAX_AGE_SECONDS,
};
use nickmass_com::sessions::Session;
use nickmass_com::store::Store;

fn session() -> Session {
    Session::new(&[1u8; 32])
}

fn written() -> Store {
    let mut store = Store::empty("k1".to_string(), "t1".to_string());
    store.set("socialUser".to_string(), "google:1".to_string());
    store
}

#[test]
fn issued_cookie_attributes() {
    let cookie = SessionCookie::issue("token".to_string());
    assert_eq!(cookie.name, "sid");
    assert_eq!(cookie.value, "token");
    assert_eq!(cookie.path, "/");
    assert!(cookie.http_only);
    assert_eq!(cookie.same_site, SameSite::Lax);
    assert_eq!(cookie.max_age_seconds, Some(30 * 24 * 60 * 60));
    assert_eq!(COOKIE_MAX_AGE_SECONDS, 2_592_000);
}

#[test]
fn cleared_cookie_attributes() {
    let cookie = SessionCookie::cleared();
    assert_eq!(cookie.name, "sid");
    assert_eq!(cookie.value, "");
    assert_eq!(cookie.path, "/");
    assert!(cookie.http_only);
    assert_eq!(cookie.same_site, SameSite::Lax);
    assert_eq!(cookie.max_age_seconds, None);
}

#[test]
fn written_store_is_persisted_and_its_token_set() {
    let conclusion = conclude(&session(), false, Some(written()));
    let plan = conclusion.persist.unwrap();
    assert_eq!(plan.cache_key, "session:k1");
    assert_eq!(plan.fields, vec![("socialUser".to_string(), "google:1".to_string())]);
    assert_eq!(plan.expire_seconds, 7_776_000);
    match conclusion.cookie {
        CookieAction::Add(cookie) => {
            assert_eq!(cookie.value, "t1");
            assert_eq!(cookie.max_age_seconds, Some(2_592_000));
        }
        other => panic!("{:?}", other),
    }
}

#[test]
fn untouched_session_changes_nothing() {
    let conclusion = conclude(&session(), false, None);
    assert!(conclusion.persist.is_none());
    assert!(matches!(conclusion.cookie, CookieAction::Keep));
}

#[test]
fn logout_removes_the_cookie_and_persists_nothing() {
    for stored in [None, Some(written())] {
        let conclusion = conclude(&session(), true, stored);
        assert!(conclusion.persist.is_none());
        match conclusion.cookie {
            CookieAction::Remove(cookie) => {
                assert_eq!(cookie.name, "sid");
                assert_eq!(cookie.value, "");
                assert_eq!(cookie.max_age_seconds, None);
            }
            other => panic!("{:?}", other),
        }
    }
}
