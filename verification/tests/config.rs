use sls_releases::config::{
    cli_config, default_user_agent, file_config, CliConfig, ConfigError, FileConfig,
    DEFAULT_PORT,
};

#[test]
fn cli_only_uses_defaults_when_no_config_file() {
    let cli = CliConfig {
        config_path: None,
        server_port: None,
        database: None,
    };
    let cfg = cli_config(&cli, Some("cli-test-token".to_string())).expect("load_config");
    assert_eq!(cfg.server_port, DEFAULT_PORT);
    assert_eq!(cfg.github_token, "cli-test-token");
    assert_eq!(cfg.github_user_agent, default_user_agent());
    assert!(cfg.sls_modules.is_empty());
    assert_eq!(cfg.sqlite_path, "releases.db");
    assert_eq!(cfg.refresh_interval_secs, 300);
}

#[test]
fn cli_only_respects_port_flag() {
    let cli = CliConfig {
        config_path: None,
        server_port: Some(9000),
        database: None,
    };
    let cfg = cli_config(&cli, Some("t".to_string())).expect("load_config");
    assert_eq!(cfg.server_port, 9000);
}

#[test]
fn cli_only_errors_when_github_token_missing() {
    let cli = CliConfig {
        config_path: None,
        server_port: None,
        database: None,
    };
    let err = cli_config(&cli, None).expect_err("expected missing token");
    assert!(matches!(err, ConfigError::MissingGithubToken));
}

#[test]
fn config_from_file_applies_section_defaults() {
    // The settings file holds [github] token, [persistence] sqlite_path and
    // [refresh] interval_secs; the environment has no token.
    let db_path = "/tmp/sls-releases-test.db";
    let raw = FileConfig {
        server_port: None,
        github_token: Some("from-file".to_string()),
        github_user_agent: None,
        sls_modules: Vec::new(),
        sqlite_path: Some(db_path.to_string()),
        refresh_interval_secs: Some(60),
    };
    let cfg = file_config(raw, None).expect("load_config");
    assert_eq!(cfg.server_port, DEFAULT_PORT, "server.port defaults");
    assert_eq!(cfg.github_token, "from-file");
    assert_eq!(cfg.github_user_agent, default_user_agent(), "empty user_agent defaults");
    assert!(cfg.sls_modules.is_empty());
    assert_eq!(cfg.sqlite_path, db_path);
    assert_eq!(cfg.refresh_interval_secs, 60);
}

fn full_file() -> FileConfig {
    FileConfig {
        server_port: Some(8181),
        github_token: Some("file-token".to_string()),
        github_user_agent: Some("agent/1".to_string()),
        sls_modules: vec![("bonuses".to_string(), "Бонусы".to_string())],
        sqlite_path: Some("  data.db  ".to_string()),
        refresh_interval_secs: Some(30),
    }
}

#[test]
fn file_settings_are_taken_as_given() {
    let cfg = file_config(full_file(), None).unwrap();
    assert_eq!(cfg.server_port, 8181);
    assert_eq!(cfg.github_token, "file-token");
    assert_eq!(cfg.github_user_agent, "agent/1");
    assert_eq!(cfg.sls_modules, vec![("bonuses".to_string(), "Бонусы".to_string())]);
    assert_eq!(cfg.sqlite_path, "data.db");
    assert_eq!(cfg.refresh_interval_secs, 30);
}

#[test]
fn environment_token_wins_over_file_token() {
    let cfg = file_config(full_file(), Some("env-token".to_string())).unwrap();
    assert_eq!(cfg.github_token, "env-token");
}

#[test]
fn blank_tokens_are_refused() {
    let mut raw = full_file();
    raw.github_token = Some("   ".to_string());
    assert!(matches!(file_config(raw, None), Err(ConfigError::MissingGithubToken)));
    // a blank environment token hides the file's token
    assert!(matches!(
        file_config(full_file(), Some(" ".to_string())),
        Err(ConfigError::MissingGithubToken)
    ));
    let mut raw = full_file();
    raw.github_token = None;
    assert!(matches!(file_config(raw, None), Err(ConfigError::MissingGithubToken)));
}

#[test]
fn blank_user_agent_gets_the_default() {
    let mut raw = full_file();
    raw.github_user_agent = Some(" \t".to_string());
    let cfg = file_config(raw, None).unwrap();
    assert_eq!(cfg.github_user_agent, "sls-releases/0.1.0");
}

#[test]
fn blank_database_path_is_refused() {
    let mut raw = full_file();
    raw.sqlite_path = Some("   ".to_string());
    assert!(matches!(file_config(raw, None), Err(ConfigError::MissingSqlitePath)));
    let mut raw = full_file();
    raw.sqlite_path = None;
    assert!(matches!(file_config(raw, None), Err(ConfigError::MissingSqlitePath)));
}

#[test]
fn zero_or_missing_refresh_interval_is_refused() {
    let mut raw = full_file();
    raw.refresh_interval_secs = Some(0);
    assert!(matches!(file_config(raw, None), Err(ConfigError::InvalidRefreshInterval)));
    let mut raw = full_file();
    raw.refresh_interval_secs = None;
    assert!(matches!(file_config(raw, None), Err(ConfigError::InvalidRefreshInterval)));
}

#[test]
fn checks_come_in_order() {
    let raw = FileConfig {
        server_port: None,
        github_token: None,
        github_user_agent: None,
        sls_modules: Vec::new(),
        sqlite_path: None,
        refresh_interval_secs: None,
    };
    assert!(matches!(file_config(raw.clone(), None), Err(ConfigError::MissingGithubToken)));
    assert!(matches!(
        file_config(raw, Some("t".to_string())),
        Err(ConfigError::MissingSqlitePath)
    ));
}

#[test]
fn cli_database_path_is_trimmed_and_checked() {
    let cli = CliConfig {
        config_path: None,
        server_port: None,
        database: Some("  my.db ".to_string()),
    };
    assert_eq!(cli_config(&cli, Some(String::new())).unwrap().sqlite_path, "my.db");
    let cli = CliConfig {
        config_path: None,
        server_port: None,
        database: Some("  ".to_string()),
    };
    assert!(matches!(cli_config(&cli, Some("t".to_string())), Err(ConfigError::MissingSqlitePath)));
    // a missing token is reported first
    assert!(matches!(cli_config(&cli, None), Err(ConfigError::MissingGithubToken)));
}

#[test]
fn config_error_messages() {
    assert_eq!(
        ConfigError::Load("bad toml".to_string()).message(),
        "failed to load config: bad toml"
    );
    assert_eq!(
        ConfigError::MissingGithubToken.message(),
        "github.token is empty (set it in config file or via GITHUB_TOKEN env var)"
    );
    assert_eq!(
        ConfigError::MissingSqlitePath.message(),
        "persistence.sqlite_path is empty (set path to SQLite database file)"
    );
    assert_eq!(
        ConfigError::InvalidRefreshInterval.message(),
        "refresh.interval_secs must be greater than zero"
    );
}

#[test]
fn default_user_agent_carries_the_crate_version() {
    assert_eq!(default_user_agent(), "sls-releases/0.1.0");
}
