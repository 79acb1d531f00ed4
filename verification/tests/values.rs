use nickmass_com::error::{Error, JsonError, Resource};
use nickmass_com::users::{
    read_number, social_user_key, user_key, FieldError, MaybeUser, User,
};

fn pair(name: &str, value: &str) -> (String, String) {
    (name.to_string(), value.to_string())
}

#[test]
fn status_codes() {
    assert_eq!(Error::NotFound.status_code(), 404);
    assert_eq!(Error::ResourceNotFound(Resource::User(1)).status_code(), 404);
    assert_eq!(Error::ResourceNotFound(Resource::Post(1)).status_code(), 404);
    assert_eq!(Error::Unauthorized.status_code(), 401);
    assert_eq!(Error::Redis("x".to_string()).status_code(), 500);
    assert_eq!(Error::Reqwest("x".to_string()).status_code(), 500);
    assert_eq!(Error::Render("index".to_string(), "x".to_string()).status_code(), 500);
    assert_eq!(Error::Timeout("x".to_string()).status_code(), 500);
    assert_eq!(Error::Pool("x".to_string()).status_code(), 500);
    assert_eq!(Error::CreatePool("x".to_string()).status_code(), 500);
}

#[test]
fn error_messages() {
    assert_eq!(Error::NotFound.message(), "Not found");
    assert_eq!(Error::Unauthorized.message(), "Unauthorized");
    assert_eq!(Error::Redis("refused".to_string()).message(), "Redis: refused");
    assert_eq!(Error::Reqwest("dns".to_string()).message(), "Reqwest: dns");
    assert_eq!(
        Error::Render("index".to_string(), "missing".to_string()).message(),
        "Failed to render index missing"
    );
    assert_eq!(Error::Timeout("deadline has elapsed".to_string()).message(), "Timeout: deadline has elapsed");
    assert_eq!(Error::Pool("closed".to_string()).message(), "Pool: closed");
    assert_eq!(Error::CreatePool("bad url".to_string()).message(), "Create Pool: bad url");
    assert_eq!(
        Error::ResourceNotFound(Resource::User(5)).message(),
        "Unable to find: User(5)"
    );
    assert_eq!(
        Error::ResourceNotFound(Resource::Post(120)).message(),
        "Unable to find: Post(120)"
    );
}

#[test]
fn resources_are_described_as_debug_prints_them() {
    for resource in [Resource::User(0), Resource::Post(7), Resource::User(u64::MAX)] {
        assert_eq!(resource.describe(), format!("{:?}", resource));
    }
}

#[test]
fn json_error_carries_status_and_words() {
    let json = Error::Unauthorized.json();
    assert_eq!(json.code, 401);
    assert_eq!(json.message, "Unauthorized");
    assert!(!json.is_server_error());
    let json = Error::Redis("down".to_string()).json();
    assert_eq!(json.code, 500);
    assert_eq!(json.message, "Redis: down");
    assert!(json.is_server_error());
}

#[test]
fn server_errors_are_the_five_hundreds() {
    let with = |code: u16| JsonError { code, message: String::new() }.is_server_error();
    assert!(!with(499));
    assert!(with(500));
    assert!(with(599));
    assert!(!with(600));
    assert!(!with(0));
}

#[test]
fn user_keys() {
    assert_eq!(user_key(0), "user:0");
    assert_eq!(user_key(1234), "user:1234");
    assert_eq!(social_user_key("google:1234"), "socialUser:google:1234");
    assert_eq!(social_user_key(""), "socialUser:");
}

#[test]
fn empty_hash_is_no_user() {
    let user = MaybeUser::from_hash(&Vec::new()).unwrap();
    assert!(user.into_option().is_none());
}

#[test]
fn hash_with_id_and_name_is_a_user() {
    let hash = vec![pair("name", "nick"), pair("id", "12"), pair("extra", "x")];
    let user = MaybeUser::from_hash(&hash).unwrap().into_option().unwrap();
    assert_eq!(user.id, 12);
    assert_eq!(user.name, "nick");
}

#[test]
fn user_needs_a_number_as_id() {
    for hash in [
        vec![pair("name", "nick")],
        vec![pair("id", "twelve"), pair("name", "nick")],
        vec![pair("id", ""), pair("name", "nick")],
        vec![pair("id", "-1"), pair("name", "nick")],
        vec![pair("ID", "1"), pair("name", "nick")],
        vec![pair("id", "18446744073709551616"), pair("name", "nick")],
    ] {
        assert_eq!(MaybeUser::from_hash(&hash).err(), Some(FieldError::UserId));
    }
}

#[test]
fn user_needs_a_name() {
    let hash = vec![pair("id", "12")];
    assert_eq!(MaybeUser::from_hash(&hash).err(), Some(FieldError::UserName));
    let hash = vec![pair("id", "12"), pair("Name", "nick")];
    assert_eq!(MaybeUser::from_hash(&hash).err(), Some(FieldError::UserName));
}

#[test]
fn missing_id_comes_before_missing_name() {
    let hash = vec![pair("other", "x")];
    assert_eq!(MaybeUser::from_hash(&hash).err(), Some(FieldError::UserId));
}

#[test]
fn field_error_messages() {
    assert_eq!(FieldError::UserId.message(), "Unexpected user id");
    assert_eq!(FieldError::UserName.message(), "Unexpected user name");
    assert_eq!(FieldError::PostId.message(), "Unexpected post id");
    assert_eq!(FieldError::PostAuthorId.message(), "Unexpected post author_id");
    assert_eq!(FieldError::PostDate.message(), "Unexpected post date");
    assert_eq!(FieldError::PostContent.message(), "Unexpected post content");
    assert_eq!(FieldError::PostTitle.message(), "Unexpected post title");
    assert_eq!(FieldError::PostUrlFragment.message(), "Unexpected post url_fragment");
}

#[test]
fn read_number_reads_a_field() {
    let hash = vec![pair("id", "5"), pair("date", "+17"), pair("name", "x")];
    assert_eq!(read_number(&hash, "id"), Some(5));
    assert_eq!(read_number(&hash, "date"), Some(17));
    assert_eq!(read_number(&hash, "name"), None);
    assert_eq!(read_number(&hash, "missing"), None);
}

#[test]
fn found_user_or_not_found() {
    let some = MaybeUser(Some(User { id: 3, name: "nick".to_string() }));
    let user = some.found(3).unwrap();
    assert_eq!((user.id, user.name.as_str()), (3, "nick"));
    match MaybeUser(None).found(9) {
        Err(Error::ResourceNotFound(Resource::User(9))) => {}
        other => panic!("{:?}", other),
    }
}
