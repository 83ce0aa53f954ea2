use hpkgbouncer::config::{
    copy_text, read_setting, ConfigurationError, RawSettings, Readiness, RouteConfig, Setting,
    DEFAULT_TTL,
};

fn s(text: &str) -> Option<String> {
    Some(text.to_string())
}

fn raw() -> RawSettings {
    RawSettings {
        s3_endpoint: s("https://s3.example.org\n"),
        s3_bucket: s("haiku-repositories\n"),
        s3_key: s("key\n"),
        s3_secret: s("secret\n"),
        s3_region: None,
        s3_prefix: None,
        s3_public: None,
        cache_ttl: None,
    }
}

fn error_of(raw: RawSettings) -> ConfigurationError {
    match RouteConfig::init(raw) {
        Ok(_) => panic!("the settings must be refused"),
        Err(e) => e,
    }
}

#[test]
fn new_configuration_has_the_defaults() {
    let config = RouteConfig::new();
    assert_eq!(config.s3_public, None);
    assert_eq!(config.cache_ttl, 900);
    assert_eq!(DEFAULT_TTL, 900);
    assert_eq!(config.s3_region, s(""));
    assert_eq!(config.s3_endpoint, None);
    assert_eq!(config.s3_bucket, None);
    assert_eq!(config.s3_key, None);
    assert_eq!(config.s3_secret, None);
    assert_eq!(config.s3_prefix, None);
    assert_eq!(config.readiness, Readiness::Listed);
}

#[test]
fn init_takes_the_settings_without_line_feeds() {
    let mut settings = raw();
    settings.s3_region = s("eu-west-1\n");
    settings.s3_prefix = s("hpkg\n");
    settings.s3_public = s("https://cdn.example.org/\n");
    settings.cache_ttl = s("60\n");
    let config = RouteConfig::init(settings).unwrap();
    assert_eq!(config.s3_endpoint, s("https://s3.example.org"));
    assert_eq!(config.s3_bucket, s("haiku-repositories"));
    assert_eq!(config.s3_key, s("key"));
    assert_eq!(config.s3_secret, s("secret"));
    assert_eq!(config.s3_region, s("eu-west-1"));
    assert_eq!(config.s3_prefix, s("hpkg"));
    assert_eq!(config.s3_public, s("https://cdn.example.org/"));
    assert_eq!(config.cache_ttl, 60);
}

#[test]
fn init_fills_in_the_defaults() {
    let config = RouteConfig::init(raw()).unwrap();
    assert_eq!(config.cache_ttl, 900);
    assert_eq!(config.s3_region, None);
    assert_eq!(config.s3_prefix, None);
    assert_eq!(config.s3_public, None);
    assert_eq!(config.readiness, Readiness::Listed);
}

#[test]
fn init_names_the_first_missing_setting() {
    let mut settings = raw();
    settings.s3_secret = None;
    assert_eq!(error_of(settings), ConfigurationError::Missing(Setting::Secret));
    let mut settings = raw();
    settings.s3_key = None;
    settings.s3_secret = None;
    assert_eq!(error_of(settings), ConfigurationError::Missing(Setting::Key));
    let mut settings = raw();
    settings.s3_bucket = None;
    settings.cache_ttl = s("soon");
    assert_eq!(error_of(settings), ConfigurationError::Missing(Setting::Bucket));
    let mut settings = raw();
    settings.s3_endpoint = None;
    settings.s3_bucket = None;
    assert_eq!(error_of(settings), ConfigurationError::Missing(Setting::Endpoint));
}

#[test]
fn init_refuses_a_ttl_that_is_no_number() {
    for text in ["soon", "", "-5", "1.5", "18446744073709551616"] {
        let mut settings = raw();
        settings.cache_ttl = s(text);
        assert_eq!(error_of(settings), ConfigurationError::InvalidTtl);
    }
}

#[test]
fn overlay_sets_prefix_public_base_and_ttl() {
    let mut config = RouteConfig::new();
    config.s3_endpoint = s("e");
    assert_eq!(config.overlay_env(s("hpkg"), s("https://cdn.example.org\n"), s("+30")), Ok(()));
    assert_eq!(config.s3_prefix, s("hpkg"));
    assert_eq!(config.s3_public, s("https://cdn.example.org"));
    assert_eq!(config.cache_ttl, 30);
    assert_eq!(config.s3_endpoint, s("e"));
    assert_eq!(config.overlay_env(None, None, None), Ok(()));
    assert_eq!(config.s3_prefix, None);
    assert_eq!(config.s3_public, None);
    assert_eq!(config.cache_ttl, 900);
}

#[test]
fn overlay_with_a_bad_ttl_keeps_the_ttl() {
    let mut config = RouteConfig::new();
    config.cache_ttl = 42;
    assert_eq!(config.overlay_env(s("p"), None, s("x")), Err(ConfigurationError::InvalidTtl));
    assert_eq!(config.cache_ttl, 42);
    assert_eq!(config.s3_prefix, s("p"));
}

#[test]
fn read_setting_cleans_or_refuses() {
    assert_eq!(read_setting(s("a\nb\n"), true, Setting::Key), Ok(s("ab")));
    assert_eq!(read_setting(s("ab"), false, Setting::Key), Ok(s("ab")));
    assert_eq!(read_setting(None, false, Setting::Key), Ok(None));
    assert_eq!(read_setting(None, true, Setting::Key), Err(ConfigurationError::Missing(Setting::Key)));
    assert_eq!(read_setting(None, true, Setting::Bucket), Err(ConfigurationError::Missing(Setting::Bucket)));
}

#[test]
fn copies_are_equal() {
    assert_eq!(copy_text(&s("abc")), s("abc"));
    assert_eq!(copy_text(&None), None);
    let config = RouteConfig::init(raw()).unwrap();
    let copy = config.clone();
    assert_eq!(copy.s3_endpoint, config.s3_endpoint);
    assert_eq!(copy.s3_secret, config.s3_secret);
    assert_eq!(copy.cache_ttl, config.cache_ttl);
}
