//! The server's settings. They come from two places, the command line and
//! a file; what the command line gives wins, what neither gives is missing,
//! and only the address and the port to listen on have defaults.
//!
//! The types of an address, a network address and a path are the caller's:
//! nothing here looks inside them.

use vstd::prelude::*;

verus! {

/// The port to listen on where none is given.
pub const DEFAULT_PORT: u16 = 80;

/// What to do other than serve.
#[derive(Debug, Clone, Copy, PartialEq, Eq, Structural)]
pub enum Subcommand {
    /// Print an example of the settings file.
    GenerateConfig,
}

/// Settings as far as one source gives them.
#[derive(Debug)]
pub struct ConfigBuilder<U, I, P> {
    /// The server key under which session tokens are sealed.
    pub session_key: Option<Vec<u8>>,
    /// The address of the site itself.
    pub base_url: Option<U>,
    /// Where the OAuth provider takes logins.
    pub oauth_login_url: Option<U>,
    /// Where the OAuth provider exchanges codes for tokens.
    pub oauth_token_url: Option<U>,
    pub oauth_id: Option<String>,
    pub oauth_secret: Option<String>,
    pub listen_ip: Option<I>,
    pub listen_port: Option<u16>,
    /// Where the cache service is.
    pub redis_url: Option<U>,
    /// The settings file to read.
    pub config_file: P,
    pub verbosity: u8,
    pub silent: bool,
    pub cmd: Option<Subcommand>,
}

/// The settings of a server.
#[derive(Debug)]
pub struct Config<U, I> {
    pub session_key: Vec<u8>,
    pub oauth_login_url: U,
    pub oauth_token_url: U,
    pub oauth_id: String,
    pub oauth_secret: String,
    pub listen_ip: I,
    pub listen_port: u16,
    pub redis_url: U,
    pub base_url: U,
    pub silent: bool,
    pub verbosity: u8,
}

/// A setting that has to be given and was not.
#[derive(Debug, Clone, Copy, PartialEq, Eq, Structural)]
pub enum Missing {
    SessionKey,
    BaseUrl,
    OauthLoginUrl,
    OauthTokenUrl,
    OauthId,
    OauthSecret,
    RedisUrl,
}

impl Missing {
    /// The name of the setting.
    pub fn name(&self) -> (name: &'static str)
        ensures
            name@ == match self {
                Missing::SessionKey => "session_key"@,
                Missing::BaseUrl => "base_url"@,
                Missing::OauthLoginUrl => "oauth_login_url"@,
                Missing::OauthTokenUrl => "oauth_token_url"@,
                Missing::OauthId => "oauth_id"@,
                Missing::OauthSecret => "oauth_secret"@,
                Missing::RedisUrl => "redis_url"@,
            },
    {
        match self {
            Missing::SessionKey => "session_key",
            Missing::BaseUrl => "base_url",
            Missing::OauthLoginUrl => "oauth_login_url",
            Missing::OauthTokenUrl => "oauth_token_url",
            Missing::OauthId => "oauth_id",
            Missing::OauthSecret => "oauth_secret",
            Missing::RedisUrl => "redis_url",
        }
    }
}

/// The first of two values that is there.
pub open spec fn first_of<T>(first: Option<T>, second: Option<T>) -> Option<T> {
    match first {
        Some(_) => first,
        None => second,
    }
}

/// The first of two values that is there.
pub fn either<T>(first: Option<T>, second: Option<T>) -> (r: Option<T>)
    ensures
        r == first_of(first, second),
{
    match first {
        Some(value) => Some(value),
        None => second,
    }
}

impl<U, I, P> ConfigBuilder<U, I, P> {
    /// The first required setting that is missing, in the order in which
    /// they are asked for.
    pub open spec fn first_missing(self) -> Option<Missing> {
        if self.session_key is None {
            Some(Missing::SessionKey)
        } else if self.base_url is None {
            Some(Missing::BaseUrl)
        } else if self.oauth_login_url is None {
            Some(Missing::OauthLoginUrl)
        } else if self.oauth_token_url is None {
            Some(Missing::OauthTokenUrl)
        } else if self.oauth_id is None {
            Some(Missing::OauthId)
        } else if self.oauth_secret is None {
            Some(Missing::OauthSecret)
        } else if self.redis_url is None {
            Some(Missing::RedisUrl)
        } else {
            None
        }
    }

    /// These settings, completed from `other` where they give nothing. The
    /// settings file, the verbosity and the silence are these settings' own.
    pub fn merge(self, other: ConfigBuilder<U, I, P>) -> (merged: ConfigBuilder<U, I, P>)
        ensures
            merged == (ConfigBuilder {
                session_key: first_of(self.session_key, other.session_key),
                base_url: first_of(self.base_url, other.base_url),
                oauth_login_url: first_of(self.oauth_login_url, other.oauth_login_url),
                oauth_token_url: first_of(self.oauth_token_url, other.oauth_token_url),
                oauth_id: first_of(self.oauth_id, other.oauth_id),
                oauth_secret: first_of(self.oauth_secret, other.oauth_secret),
                listen_ip: first_of(self.listen_ip, other.listen_ip),
                listen_port: first_of(self.listen_port, other.listen_port),
                redis_url: first_of(self.redis_url, other.redis_url),
                config_file: self.config_file,
                verbosity: self.verbosity,
                silent: self.silent,
                cmd: first_of(self.cmd, other.cmd),
            }),
    {
        ConfigBuilder {
            session_key: either(self.session_key, other.session_key),
            base_url: either(self.base_url, other.base_url),
            oauth_login_url: either(self.oauth_login_url, other.oauth_login_url),
            oauth_token_url: either(self.oauth_token_url, other.oauth_token_url),
            oauth_id: either(self.oauth_id, other.oauth_id),
            oauth_secret: either(self.oauth_secret, other.oauth_secret),
            listen_ip: either(self.listen_ip, other.listen_ip),
            listen_port: either(self.listen_port, other.listen_port),
            redis_url: either(self.redis_url, other.redis_url),
            config_file: self.config_file,
            verbosity: self.verbosity,
            silent: self.silent,
            cmd: either(self.cmd, other.cmd),
        }
    }

    /// The settings of a server, where every required one is given; else
    /// the first that is missing. The address to listen on is `any_ip`
    /// where none is given, the port `DEFAULT_PORT`.
    pub fn build(self, any_ip: I) -> (r: Result<Config<U, I>, Missing>)
        ensures
            match self.first_missing() {
                Some(missing) => r == Err::<Config<U, I>, Missing>(missing),
                None => r == Ok::<Config<U, I>, Missing>(
                    Config {
                        session_key: self.session_key.unwrap(),
                        oauth_login_url: self.oauth_login_url.unwrap(),
                        oauth_token_url: self.oauth_token_url.unwrap(),
                        oauth_id: self.oauth_id.unwrap(),
                        oauth_secret: self.oauth_secret.unwrap(),
                        listen_ip: match self.listen_ip {
                            Some(ip) => ip,
                            None => any_ip,
                        },
                        listen_port: match self.listen_port {
                            Some(port) => port,
                            None => DEFAULT_PORT,
                        },
                        redis_url: self.redis_url.unwrap(),
                        base_url: self.base_url.unwrap(),
                        silent: self.silent,
                        verbosity: self.verbosity,
                    },
                ),
            },
    {
        let session_key = match self.session_key {
            Some(value) => value,
            None => {
                return Err(Missing::SessionKey);
            },
        };
        let base_url = match self.base_url {
            Some(value) => value,
            None => {
                return Err(Missing::BaseUrl);
            },
        };
        let oauth_login_url = match self.oauth_login_url {
            Some(value) => value,
            None => {
                return Err(Missing::OauthLoginUrl);
            },
        };
        let oauth_token_url = match self.oauth_token_url {
            Some(value) => value,
            None => {
                return Err(Missing::OauthTokenUrl);
            },
        };
        let oauth_id = match self.oauth_id {
            Some(value) => value,
            None => {
                return Err(Missing::OauthId);
            },
        };
        let oauth_secret = match self.oauth_secret {
            Some(value) => value,
            None => {
                return Err(Missing::OauthSecret);
            },
        };
        let redis_url = match self.redis_url {
            Some(value) => value,
            None => {
                return Err(Missing::RedisUrl);
            },
        };
        let listen_ip = match self.listen_ip {
            Some(ip) => ip,
            None => any_ip,
        };
        let listen_port: u16 = match self.listen_port {
            Some(port) => port,
            None => DEFAULT_PORT,
        };
        Ok(
            Config {
                session_key,
                oauth_login_url,
                oauth_token_url,
                oauth_id,
                oauth_secret,
                listen_ip,
                listen_port,
                redis_url,
                base_url,
                silent: self.silent,
                verbosity: self.verbosity,
            },
        )
    }
}

/// How much a log says.
#[derive(Debug, Clone, Copy, PartialEq, Eq, Structural)]
pub enum LogLevel {
    Off,
    Error,
    Warn,
    Info,
    Debug,
    Trace,
}

/// What is logged: the level of the server's own modules, where it differs
/// from the rest, and the level of everything else.
#[derive(Debug, Clone, Copy, PartialEq, Eq, Structural)]
pub struct LogPlan {
    pub own: Option<LogLevel>,
    pub others: LogLevel,
}

/// What is logged at a verbosity. A silent server logs nothing of others
/// and at most warnings of its own; else each step of verbosity lets both
/// say more, until everything is traced.
pub open spec fn log_plan_of(verbosity: u8, silent: bool) -> LogPlan {
    if silent {
        if verbosity == 1 {
            LogPlan { own: Some(LogLevel::Error), others: LogLevel::Off }
        } else if verbosity == 2 {
            LogPlan { own: Some(LogLevel::Warn), others: LogLevel::Off }
        } else {
            LogPlan { own: None, others: LogLevel::Off }
        }
    } else if verbosity <= 1 {
        LogPlan { own: Some(LogLevel::Info), others: LogLevel::Error }
    } else if verbosity == 2 {
        LogPlan { own: Some(LogLevel::Debug), others: LogLevel::Warn }
    } else if verbosity == 3 {
        LogPlan { own: Some(LogLevel::Trace), others: LogLevel::Info }
    } else {
        LogPlan { own: None, others: LogLevel::Trace }
    }
}

/// What is logged at a verbosity.
pub fn log_plan(verbosity: u8, silent: bool) -> (plan: LogPlan)
    ensures
        plan == log_plan_of(verbosity, silent),
{
    match (verbosity, silent) {
        (1, true) => LogPlan { own: Some(LogLevel::Error), others: LogLevel::Off },
        (2, true) => LogPlan { own: Some(LogLevel::Warn), others: LogLevel::Off },
        (_, true) => LogPlan { own: None, others: LogLevel::Off },
        (0, _) | (1, _) => LogPlan { own: Some(LogLevel::Info), others: LogLevel::Error },
        (2, _) => LogPlan { own: Some(LogLevel::Debug), others: LogLevel::Warn },
        (3, _) => LogPlan { own: Some(LogLevel::Trace), others: LogLevel::Info },
        _ => LogPlan { own: None, others: LogLevel::Trace },
    }
}

} // verus!
