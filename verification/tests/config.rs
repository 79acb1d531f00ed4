use nickmass_com::config::{
    either, log_plan, Config, ConfigBuilder, LogLevel, LogPlan, Missing, Subcommand,
    DEFAULT_PORT,
};
use nickmass_com::encoding::{decode, encode};

type Builder = ConfigBuilder<String, [u8; 4], String>;

fn empty(file: &str) -> Builder {
    ConfigBuilder {
        session_key: None,
        base_url: None,
        oauth_login_url: None,
        oauth_token_url: None,
        oauth_id: None,
        oauth_secret: None,
        listen_ip: None,
        listen_port: None,
        redis_url: None,
        config_file: file.to_string(),
        verbosity: 0,
        silent: false,
        cmd: None,
    }
}

fn full(tag: &str) -> Builder {
    ConfigBuilder {
        session_key: Some(tag.as_bytes().to_vec()),
        base_url: Some(format!("https://{}.example/", tag)),
        oauth_login_url: Some(format!("https://{}.example/login", tag)),
        oauth_token_url: Some(format!("https://{}.example/token", tag)),
        oauth_id: Some(format!("{}-id", tag)),
        oauth_secret: Some(format!("{}-secret", tag)),
        listen_ip: Some([127, 0, 0, 1]),
        listen_port: Some(8080),
        redis_url: Some(format!("redis://{}.example/0", tag)),
        config_file: format!("{}.toml", tag),
        verbosity: 2,
        silent: true,
        cmd: Some(Subcommand::GenerateConfig),
    }
}

fn built(b: Builder) -> Result<Config<String, [u8; 4]>, Missing> {
    b.build([0, 0, 0, 0])
}

#[test]
fn either_takes_the_first_that_is_there() {
    assert_eq!(either(Some(1), Some(2)), Some(1));
    assert_eq!(either(Some(1), None), Some(1));
    assert_eq!(either(None, Some(2)), Some(2));
    assert_eq!(either::<u8>(None, None), None);
}

#[test]
fn merge_prefers_the_command_line() {
    let merged = full("cli").merge(full("file"));
    assert_eq!(merged.session_key, Some(b"cli".to_vec()));
    assert_eq!(merged.base_url, Some("https://cli.example/".to_string()));
    assert_eq!(merged.oauth_id, Some("cli-id".to_string()));
    assert_eq!(merged.redis_url, Some("redis://cli.example/0".to_string()));
    assert_eq!(merged.config_file, "cli.toml");
}

#[test]
fn merge_fills_in_from_the_file() {
    let mut cli = empty("cli.toml");
    cli.oauth_id = Some("cli-id".to_string());
    cli.verbosity = 3;
    let merged = cli.merge(full("file"));
    assert_eq!(merged.session_key, Some(b"file".to_vec()));
    assert_eq!(merged.base_url, Some("https://file.example/".to_string()));
    assert_eq!(merged.oauth_login_url, Some("https://file.example/login".to_string()));
    assert_eq!(merged.oauth_token_url, Some("https://file.example/token".to_string()));
    assert_eq!(merged.oauth_id, Some("cli-id".to_string()));
    assert_eq!(merged.oauth_secret, Some("file-secret".to_string()));
    assert_eq!(merged.listen_ip, Some([127, 0, 0, 1]));
    assert_eq!(merged.listen_port, Some(8080));
    assert_eq!(merged.redis_url, Some("redis://file.example/0".to_string()));
    assert_eq!(merged.cmd, Some(Subcommand::GenerateConfig));
}

#[test]
fn merge_keeps_file_verbosity_and_silence_of_its_own() {
    let merged = empty("cli.toml").merge(full("file"));
    assert_eq!(merged.config_file, "cli.toml");
    assert_eq!(merged.verbosity, 0);
    assert!(!merged.silent);
}

#[test]
fn build_with_everything() {
    let config = built(full("a")).unwrap();
    assert_eq!(config.session_key, b"a".to_vec());
    assert_eq!(config.base_url, "https://a.example/");
    assert_eq!(config.oauth_login_url, "https://a.example/login");
    assert_eq!(config.oauth_token_url, "https://a.example/token");
    assert_eq!(config.oauth_id, "a-id");
    assert_eq!(config.oauth_secret, "a-secret");
    assert_eq!(config.listen_ip, [127, 0, 0, 1]);
    assert_eq!(config.listen_port, 8080);
    assert_eq!(config.redis_url, "redis://a.example/0");
    assert_eq!(config.verbosity, 2);
    assert!(config.silent);
}

#[test]
fn build_defaults_address_and_port() {
    let mut b = full("a");
    b.listen_ip = None;
    b.listen_port = None;
    let config = built(b).unwrap();
    assert_eq!(config.listen_ip, [0, 0, 0, 0]);
    assert_eq!(config.listen_port, 80);
    assert_eq!(DEFAULT_PORT, 80);
}

#[test]
fn build_names_the_missing_setting() {
    let drop: [(fn(&mut Builder), Missing, &str); 7] = [
        (|b| b.session_key = None, Missing::SessionKey, "session_key"),
        (|b| b.base_url = None, Missing::BaseUrl, "base_url"),
        (|b| b.oauth_login_url = None, Missing::OauthLoginUrl, "oauth_login_url"),
        (|b| b.oauth_token_url = None, Missing::OauthTokenUrl, "oauth_token_url"),
        (|b| b.oauth_id = None, Missing::OauthId, "oauth_id"),
        (|b| b.oauth_secret = None, Missing::OauthSecret, "oauth_secret"),
        (|b| b.redis_url = None, Missing::RedisUrl, "redis_url"),
    ];
    for (forget, missing, name) in drop {
        let mut b = full("a");
        forget(&mut b);
        assert_eq!(built(b).err(), Some(missing));
        assert_eq!(missing.name(), name);
    }
}

#[test]
fn build_names_the_first_missing_setting() {
    assert_eq!(built(empty("x")).err(), Some(Missing::SessionKey));
    let mut b = full("a");
    b.redis_url = None;
    b.oauth_id = None;
    assert_eq!(built(b).err(), Some(Missing::OauthId));
    let mut b = full("a");
    b.redis_url = None;
    b.base_url = None;
    assert_eq!(built(b).err(), Some(Missing::BaseUrl));
}

#[test]
fn log_plans() {
    let plan = |own, others| LogPlan { own, others };
    assert_eq!(log_plan(0, false), plan(Some(LogLevel::Info), LogLevel::Error));
    assert_eq!(log_plan(1, false), plan(Some(LogLevel::Info), LogLevel::Error));
    assert_eq!(log_plan(2, false), plan(Some(LogLevel::Debug), LogLevel::Warn));
    assert_eq!(log_plan(3, false), plan(Some(LogLevel::Trace), LogLevel::Info));
    assert_eq!(log_plan(4, false), plan(None, LogLevel::Trace));
    assert_eq!(log_plan(255, false), plan(None, LogLevel::Trace));
    assert_eq!(log_plan(0, true), plan(None, LogLevel::Off));
    assert_eq!(log_plan(1, true), plan(Some(LogLevel::Error), LogLevel::Off));
    assert_eq!(log_plan(2, true), plan(Some(LogLevel::Warn), LogLevel::Off));
    assert_eq!(log_plan(3, true), plan(None, LogLevel::Off));
    assert_eq!(log_plan(255, true), plan(None, LogLevel::Off));
}

#[test]
fn session_key_is_given_in_base64() {
    assert_eq!(decode("AAECAwQF"), Some(vec![0, 1, 2, 3, 4, 5]));
    assert_eq!(decode("aGVsbG8gd29ybGQ="), Some(b"hello world".to_vec()));
    assert_eq!(decode(""), Some(Vec::new()));
    assert_eq!(decode("not base64"), None);
    assert_eq!(decode("AAEC AwQF"), None);
    assert_eq!(decode("A"), None);
}

#[test]
fn base64_text_of_bytes() {
    assert_eq!(encode(&[0, 1, 2, 3, 4, 5]), Some("AAECAwQF".to_string()));
    assert_eq!(encode(b"hello world"), Some("aGVsbG8gd29ybGQ=".to_string()));
    assert_eq!(encode(b""), Some(String::new()));
    assert_eq!(encode(b"a"), Some("YQ==".to_string()));
    assert_eq!(encode(&[0xfb, 0xff]), Some("+/8=".to_string()));
    let all: Vec<u8> = (0u8..=255).collect();
    assert_eq!(decode(&encode(&all).unwrap()), Some(all));
}
