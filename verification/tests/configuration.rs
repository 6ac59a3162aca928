use keystone::config::{
    default_hsts_max_age, default_true, find_config_path, is_production, sources_of, AppConfig,
    Config, ConfigError, ConfigSource, DatabaseConfig, SecurityConfig, ServerConfig, Surroundings,
};

fn nothing() -> Surroundings {
    Surroundings {
        config_path: None,
        config_path_exists: false,
        system_path_exists: false,
        mode: None,
        local_path_exists: false,
    }
}

fn app_config() -> AppConfig {
    AppConfig {
        server: ServerConfig { host: "127.0.0.1".to_string(), port: 9090 },
        database: DatabaseConfig {
            url: "ws://test:8000".to_string(),
            username: "admin".to_string(),
            password: "secret".to_string(),
            namespace: "test_ns".to_string(),
            database: "test_db".to_string(),
        },
        security: SecurityConfig::default(),
        instance_id: Some("test-instance".to_string()),
    }
}

fn path(surroundings: &Surroundings) -> String {
    match AppConfig::get_config_path("/etc/app.toml", "app.toml", surroundings) {
        Ok(path) => path,
        Err(error) => error.message(),
    }
}

fn describe(sources: Vec<ConfigSource>) -> Vec<String> {
    sources.iter().map(|source| format!("{:?}", source)).collect()
}

#[test]
fn security_defaults() {
    let security = SecurityConfig::default();
    assert!(!security.enable_hsts);
    assert_eq!(security.hsts_max_age, 31536000);
    assert!(security.hsts_include_subdomains);
    assert!(!security.hsts_preload);
    assert!(security.content_security_policy.is_none());
    assert_eq!(security.cors_origins, vec!["*".to_string()]);
    assert!(security.enable_security_headers);
    assert_eq!(default_hsts_max_age(), 31536000);
    assert!(default_true());
}

#[test]
fn config_path_comes_first() {
    let surroundings = Surroundings {
        config_path: Some("/srv/other.toml".to_string()),
        config_path_exists: true,
        system_path_exists: true,
        mode: Some("development".to_string()),
        local_path_exists: true,
    };
    assert_eq!(path(&surroundings), "/srv/other.toml");
}

#[test]
fn missing_config_path_is_passed_over() {
    let surroundings = Surroundings {
        config_path: Some("/srv/other.toml".to_string()),
        system_path_exists: true,
        ..nothing()
    };
    assert_eq!(path(&surroundings), "/etc/app.toml");
}

#[test]
fn existence_without_config_path_counts_for_nothing() {
    let surroundings = Surroundings { config_path_exists: true, ..nothing() };
    assert!(find_config_path("/etc/app.toml", "app.toml", &surroundings).is_err());
}

#[test]
fn local_path_is_for_development() {
    let mut surroundings = Surroundings { local_path_exists: true, ..nothing() };
    assert!(AppConfig::get_config_path("/etc/app.toml", "app.toml", &surroundings).is_err());
    surroundings.mode = Some("PRODuction".to_string());
    assert!(AppConfig::get_config_path("/etc/app.toml", "app.toml", &surroundings).is_err());
    surroundings.mode = Some("productions".to_string());
    assert_eq!(path(&surroundings), "app.toml");
    surroundings.mode = Some("dev".to_string());
    assert_eq!(path(&surroundings), "app.toml");
    surroundings.system_path_exists = true;
    assert_eq!(path(&surroundings), "/etc/app.toml");
}

#[test]
fn not_found_in_production() {
    assert_eq!(
        path(&nothing()),
        "Configuration file not found. Set CONFIG_PATH or place it at /etc/app.toml"
    );
}

#[test]
fn not_found_in_development() {
    let surroundings = Surroundings { mode: Some("dev".to_string()), ..nothing() };
    assert_eq!(
        path(&surroundings),
        "Configuration file not found. Set CONFIG_PATH or place it at /etc/app.toml or app.toml"
    );
}

#[test]
fn production_unless_told_otherwise() {
    assert!(is_production(&nothing()));
    for (mode, expected) in
        [("production", true), ("Production", true), ("", false), ("prod", false), ("dev", false)]
    {
        let surroundings = Surroundings { mode: Some(mode.to_string()), ..nothing() };
        assert_eq!(is_production(&surroundings), expected);
    }
}

#[test]
fn case_is_ignored_for_ascii_only() {
    // The dotted capital I is no ASCII letter.
    for (mode, expected) in [("PRODUCTION", true), ("productİon", false), ("production ", false)] {
        let surroundings = Surroundings { mode: Some(mode.to_string()), ..nothing() };
        assert_eq!(is_production(&surroundings), expected);
        assert_eq!(mode.eq_ignore_ascii_case("production"), expected);
    }
}

#[test]
fn environment_is_read_after_the_file() {
    let surroundings = Surroundings { system_path_exists: true, ..nothing() };
    let sources = AppConfig::load("/etc/app.toml", "app.toml", &surroundings).unwrap();
    assert_eq!(
        describe(sources),
        vec![
            "File(\"/etc/app.toml\")".to_string(),
            "Environment { prefix: \"BUMACS\", separator: \"_\" }".to_string(),
        ]
    );
}

#[test]
fn environment_alone_is_enough() {
    let sources = AppConfig::load("non_existent.toml", "non_existent_dev.toml", &nothing()).unwrap();
    assert_eq!(
        describe(sources),
        vec!["Environment { prefix: \"BUMACS\", separator: \"_\" }".to_string()]
    );
}

#[test]
fn other_errors_end_the_loading() {
    let result = sources_of(Err(ConfigError::LoadError("no".to_string())));
    assert!(matches!(result, Err(ConfigError::LoadError(reason)) if reason == "no"));
    let result = sources_of(Err(ConfigError::Config("broken".to_string())));
    assert!(matches!(result, Err(ConfigError::Config(reason)) if reason == "broken"));
}

#[test]
fn config_error_messages() {
    assert_eq!(
        ConfigError::LoadError("why".to_string()).message(),
        "Failed to load configuration: why"
    );
    assert_eq!(ConfigError::NotFound("where".to_string()).message(), "where");
    assert_eq!(ConfigError::Config("what".to_string()).message(), "what");
}

#[test]
fn config_hands_out_its_parts() {
    let config = app_config();
    assert_eq!(config.get_server_config().port, 9090);
    assert_eq!(config.get_server_config().host, "127.0.0.1");
    assert_eq!(config.get_database_config().url, "ws://test:8000");
    assert_eq!(config.get_database_config().password, "secret");
    assert_eq!(config.get_security_config().cors_origins, vec!["*".to_string()]);
    assert_eq!(config.get_instance_id(), Some("test-instance".to_string()));
}

#[test]
fn copies_of_the_configuration() {
    let mut security = SecurityConfig::default();
    security.content_security_policy = Some("default-src 'self'".to_string());
    security.cors_origins = vec!["https://a".to_string(), "https://b".to_string()];
    security.hsts_preload = true;
    let copy = security.clone();
    assert_eq!(format!("{:?}", copy), format!("{:?}", security));
}

struct OwnSearch;

impl Config for OwnSearch {
    fn get_server_config(&self) -> ServerConfig {
        app_config().server
    }

    fn get_database_config(&self) -> DatabaseConfig {
        app_config().database
    }

    fn get_security_config(&self) -> SecurityConfig {
        app_config().security
    }

    fn get_instance_id(&self) -> Option<String> {
        None
    }

    fn get_config_path(
        _default_system_path: &str,
        local_dev_path: &str,
        surroundings: &Surroundings,
    ) -> Result<String, ConfigError> {
        if surroundings.local_path_exists {
            Ok(local_dev_path.to_string())
        } else {
            Err(ConfigError::LoadError("no local file".to_string()))
        }
    }
}

#[test]
fn configuration_may_search_on_its_own() {
    let surroundings = Surroundings { local_path_exists: true, ..nothing() };
    let sources = OwnSearch::load("/etc/app.toml", "app.toml", &surroundings).unwrap();
    assert_eq!(describe(sources)[0], "File(\"app.toml\")");
    assert!(matches!(
        OwnSearch::load("/etc/app.toml", "app.toml", &nothing()),
        Err(ConfigError::LoadError(_))
    ));
}
