//! Application settings: from the command line alone, or from a settings
//! file, with the GitHub token of the environment taking precedence.
use vstd::prelude::*;

use crate::text::{concat, trim, trimmed};

verus! {

/// The port the server listens on when none is given.
pub const DEFAULT_PORT: u16 = 8080;

/// The refresh period, in seconds, when the settings come from the command
/// line alone.
pub const CLI_REFRESH_INTERVAL_SECS: u64 = 300;

/// The settings the application runs with.
#[derive(Debug, Clone)]
pub struct AppConfig {
    pub server_port: u16,
    pub github_token: String,
    pub github_user_agent: String,
    /// Known modules: name and localized name.
    pub sls_modules: Vec<(String, String)>,
    pub sqlite_path: String,
    pub refresh_interval_secs: u64,
}

/// What the command line gives.
#[derive(Debug, Clone)]
pub struct CliConfig {
    /// The settings file to read, if any.
    pub config_path: Option<String>,
    pub server_port: Option<u16>,
    pub database: Option<String>,
}

/// The values a settings file holds; a value that the file leaves out is
/// `None` (for the modules, an empty list).
#[derive(Debug, Clone)]
pub struct FileConfig {
    pub server_port: Option<u16>,
    pub github_token: Option<String>,
    pub github_user_agent: Option<String>,
    pub sls_modules: Vec<(String, String)>,
    pub sqlite_path: Option<String>,
    pub refresh_interval_secs: Option<u64>,
}

/// Why the settings cannot be used.
#[derive(Debug, Clone)]
pub enum ConfigError {
    /// The settings file could not be read or parsed (the reason).
    Load(String),
    MissingGithubToken,
    MissingSqlitePath,
    InvalidRefreshInterval,
}

/// The message of a settings error.
pub open spec fn config_error_text(e: ConfigError) -> Seq<char> {
    match e {
        ConfigError::Load(reason) => "failed to load config: "@ + reason@,
        ConfigError::MissingGithubToken => "github.token is empty (set it in config file or via GITHUB_TOKEN env var)"@,
        ConfigError::MissingSqlitePath => "persistence.sqlite_path is empty (set path to SQLite database file)"@,
        ConfigError::InvalidRefreshInterval => "refresh.interval_secs must be greater than zero"@,
    }
}

impl ConfigError {
    /// The message of this error.
    pub fn message(&self) -> (s: String)
        ensures
            s@ == config_error_text(*self),
    {
        match self {
            ConfigError::Load(reason) => concat("failed to load config: ", reason.as_str()),
            ConfigError::MissingGithubToken => String::from_str(
                "github.token is empty (set it in config file or via GITHUB_TOKEN env var)",
            ),
            ConfigError::MissingSqlitePath => String::from_str(
                "persistence.sqlite_path is empty (set path to SQLite database file)",
            ),
            ConfigError::InvalidRefreshInterval => String::from_str(
                "refresh.interval_secs must be greater than zero",
            ),
        }
    }
}

/// The port used when none is given.
pub fn default_port() -> (p: u16)
    ensures
        p == DEFAULT_PORT,
{
    DEFAULT_PORT
}

/// The user agent sent to GitHub when none is configured: the service's
/// name and the crate's version (`0.1.0`).
pub open spec fn default_user_agent_text() -> Seq<char> {
    "sls-releases/"@ + "0.1.0"@
}

/// The user agent sent to GitHub when none is configured.
pub fn default_user_agent() -> (s: String)
    ensures
        s@ == default_user_agent_text(),
{
    concat("sls-releases/", "0.1.0")
}

/// The database path: the given one without surrounding white space, which
/// must not be blank.
pub fn validate_sqlite_path(path: &str) -> (r: Result<String, ConfigError>)
    ensures
        match r {
            Ok(p) => trimmed(path@).len() > 0 && p@ == trimmed(path@),
            Err(e) => trimmed(path@).len() == 0 && e is MissingSqlitePath,
        },
{
    let t = trim(path);
    if t.as_str().unicode_len() == 0 {
        Err(ConfigError::MissingSqlitePath)
    } else {
        Ok(t)
    }
}

/// The database path of the command line: `releases.db` when none is given.
pub fn get_database_path(path: &Option<String>) -> (r: Result<String, ConfigError>)
    ensures
        match path {
            None => r matches Ok(p) && p@ == "releases.db"@,
            Some(given) => match r {
                Ok(p) => trimmed(given@).len() > 0 && p@ == trimmed(given@),
                Err(e) => trimmed(given@).len() == 0 && e is MissingSqlitePath,
            },
        },
{
    match path {
        None => Ok(String::from_str("releases.db")),
        Some(s) => validate_sqlite_path(s.as_str()),
    }
}

/// The settings of a run without a settings file: the port of the command
/// line (else the default one), the token of the environment (which must be
/// set), the default user agent, no known modules, the database path of the
/// command line and a refresh every five minutes.  A missing token is
/// reported before a blank database path.
pub fn cli_config(cli: &CliConfig, env_token: Option<String>) -> (r: Result<AppConfig, ConfigError>)
    ensures
        match r {
            Ok(c) => {
                &&& env_token matches Some(t) && c.github_token@ == t@
                &&& c.server_port == match cli.server_port {
                    Some(p) => p,
                    None => DEFAULT_PORT,
                }
                &&& c.github_user_agent@ == default_user_agent_text()
                &&& c.sls_modules@.len() == 0
                &&& match cli.database {
                    None => c.sqlite_path@ == "releases.db"@,
                    Some(given) => trimmed(given@).len() > 0 && c.sqlite_path@ == trimmed(given@),
                }
                &&& c.refresh_interval_secs == CLI_REFRESH_INTERVAL_SECS
            },
            Err(ConfigError::MissingGithubToken) => env_token is None,
            Err(ConfigError::MissingSqlitePath) => {
                &&& env_token is Some
                &&& cli.database matches Some(given) && trimmed(given@).len() == 0
            },
            Err(_) => false,
        },
{
    let server_port = match cli.server_port {
        Some(p) => p,
        None => DEFAULT_PORT,
    };
    let github_token = match env_token {
        Some(t) => t,
        None => {
            return Err(ConfigError::MissingGithubToken);
        },
    };
    let sqlite_path = match get_database_path(&cli.database) {
        Ok(p) => p,
        Err(e) => {
            return Err(e);
        },
    };
    Ok(
        AppConfig {
            server_port,
            github_token,
            github_user_agent: default_user_agent(),
            sls_modules: Vec::new(),
            sqlite_path,
            refresh_interval_secs: CLI_REFRESH_INTERVAL_SECS,
        },
    )
}

/// The text of an optional value, empty when it is left out.
pub open spec fn text_or_empty(s: Option<String>) -> Seq<char> {
    match s {
        Some(v) => v@,
        None => Seq::empty(),
    }
}

/// The token a settings file run uses: the environment's, else the file's.
pub open spec fn chosen_token(raw: FileConfig, env_token: Option<String>) -> Seq<char> {
    match env_token {
        Some(t) => t@,
        None => text_or_empty(raw.github_token),
    }
}

/// The refresh period of a settings file, zero when left out.
pub open spec fn file_interval(raw: FileConfig) -> u64 {
    match raw.refresh_interval_secs {
        Some(n) => n,
        None => 0,
    }
}

/// The settings of a run with a settings file.  The token of the environment
/// wins over the file's and must not be blank; a blank user agent is replaced
/// by the default one; the database path is trimmed and must not be blank;
/// the refresh period must be positive; the port defaults to the default
/// port.  The checks are made in that order.
pub fn file_config(raw: FileConfig, env_token: Option<String>) -> (r: Result<AppConfig, ConfigError>)
    ensures
        match r {
            Ok(c) => {
                &&& trimmed(chosen_token(raw, env_token)).len() > 0
                &&& c.github_token@ == chosen_token(raw, env_token)
                &&& c.server_port == match raw.server_port {
                    Some(p) => p,
                    None => DEFAULT_PORT,
                }
                &&& c.github_user_agent@ == if trimmed(text_or_empty(raw.github_user_agent)).len()
                    == 0 {
                    default_user_agent_text()
                } else {
                    text_or_empty(raw.github_user_agent)
                }
                &&& c.sls_modules@ == raw.sls_modules@
                &&& trimmed(text_or_empty(raw.sqlite_path)).len() > 0
                &&& c.sqlite_path@ == trimmed(text_or_empty(raw.sqlite_path))
                &&& file_interval(raw) > 0
                &&& c.refresh_interval_secs == file_interval(raw)
            },
            Err(ConfigError::MissingGithubToken) => trimmed(chosen_token(raw, env_token)).len()
                == 0,
            Err(ConfigError::MissingSqlitePath) => {
                &&& trimmed(chosen_token(raw, env_token)).len() > 0
                &&& trimmed(text_or_empty(raw.sqlite_path)).len() == 0
            },
            Err(ConfigError::InvalidRefreshInterval) => {
                &&& trimmed(chosen_token(raw, env_token)).len() > 0
                &&& trimmed(text_or_empty(raw.sqlite_path)).len() > 0
                &&& file_interval(raw) == 0
            },
            Err(ConfigError::Load(_)) => false,
        },
{
    let ghost raw0 = raw;
    let ghost env0 = env_token;
    let FileConfig {
        server_port,
        github_token: file_token,
        github_user_agent,
        sls_modules,
        sqlite_path,
        refresh_interval_secs,
    } = raw;
    let github_token = match env_token {
        Some(t) => t,
        None => match file_token {
            Some(t) => t,
            None => String::new(),
        },
    };
    assert(github_token@ == chosen_token(raw0, env0));
    let token_trimmed = trim(github_token.as_str());
    if token_trimmed.as_str().unicode_len() == 0 {
        return Err(ConfigError::MissingGithubToken);
    }
    let agent = match github_user_agent {
        Some(a) => a,
        None => String::new(),
    };
    let agent_trimmed = trim(agent.as_str());
    let github_user_agent = if agent_trimmed.as_str().unicode_len() == 0 {
        default_user_agent()
    } else {
        agent
    };
    let path = match sqlite_path {
        Some(p) => p,
        None => String::new(),
    };
    let sqlite_path = trim(path.as_str());
    if sqlite_path.as_str().unicode_len() == 0 {
        return Err(ConfigError::MissingSqlitePath);
    }
    let refresh_interval_secs = match refresh_interval_secs {
        Some(n) => n,
        None => 0,
    };
    if refresh_interval_secs == 0 {
        return Err(ConfigError::InvalidRefreshInterval);
    }
    let server_port = match server_port {
        Some(p) => p,
        None => DEFAULT_PORT,
    };
    Ok(
        AppConfig {
            server_port,
            github_token,
            github_user_agent,
            sls_modules,
            sqlite_path,
            refresh_interval_secs,
        },
    )
}

} // verus!
