use runbeam_cli::config::{get_api_url, is_api_url_key, is_valid_api_url, ApiUrlSource, CliConfig, ConfigError};

#[test]
fn test_config_url_validation_concept() {
    let valid_urls = vec![
        "http://localhost:8080",
        "https://api.example.com",
        "http://192.168.1.1:3000",
        "https://api-staging.example.com:8443",
    ];

    for url in valid_urls {
        assert!(is_valid_api_url(url));
    }
    assert!(!is_valid_api_url("api.example.com"));
    assert!(!is_valid_api_url("ftp://example.com"));
}

#[test]
fn test_config_invalid_key_concept() {
    let valid_keys = vec!["api-url", "api_url"];
    let invalid_keys = vec!["api", "url", "base-url", "endpoint", "server"];

    for key in &valid_keys {
        assert!(is_api_url_key(key));
    }

    for key in &invalid_keys {
        assert!(!is_api_url_key(key));
    }
}

#[test]
fn set_trims_trailing_slashes() {
    let mut c = CliConfig::default();
    c.set("api-url", "https://api.example.com//").unwrap();
    assert_eq!(c.api_url.as_deref(), Some("https://api.example.com"));
    c.set("api_url", "http://x").unwrap();
    assert_eq!(c.api_url.as_deref(), Some("http://x"));
}

#[test]
fn set_refuses_bad_input() {
    let mut c = CliConfig::default();
    assert_eq!(c.set("api-url", "example.com").unwrap_err(), ConfigError::InvalidUrl);
    assert_eq!(
        c.set("server", "http://x").unwrap_err(),
        ConfigError::UnknownKey { key: "server".to_string() }
    );
    assert!(c.api_url.is_none());
}

#[test]
fn unset_reports_whether_it_was_set() {
    let mut c = CliConfig { api_url: Some("http://x".to_string()) };
    assert_eq!(c.unset("api-url"), Ok(true));
    assert!(c.api_url.is_none());
    assert_eq!(c.unset("api_url"), Ok(false));
    assert!(c.unset("nope").is_err());
}

#[test]
fn effective_api_url_priority() {
    let set = CliConfig { api_url: Some("http://conf".to_string()) };
    assert_eq!(get_api_url(&set, Some("http://env".to_string())), ("http://conf".to_string(), ApiUrlSource::ConfigFile));
    let unset = CliConfig::default();
    assert_eq!(get_api_url(&unset, Some("http://env".to_string())), ("http://env".to_string(), ApiUrlSource::Environment));
    assert_eq!(get_api_url(&unset, None), ("http://runbeam.lndo.site".to_string(), ApiUrlSource::Default));
}
