use one_time_session_chat::config::{parse_port, Config, ConfigError};

fn some(text: &str) -> Option<String> {
    Some(text.to_string())
}

fn settings() -> Result<Config, ConfigError> {
    Config::init(
        some("8080"),
        some("development"),
        some("mongodb://localhost:27017"),
        some("redis://localhost"),
    )
}

#[test]
fn create_config() {
    let c = settings().expect("all four values are set");
    assert_eq!(c.port > 0, true);
    assert_eq!(c.environment.chars().count() > 0, true);
    assert_eq!(c.mongo_uri.chars().count() > 0, true);
    assert_eq!(c.redis_uri.chars().count() > 0, true);
}

#[test]
fn mod_create_config() {
    let c = settings().expect("all four values are set");
    assert_eq!(c.port.to_string().chars().count() > 0, true);
    assert_eq!(c.environment.chars().count() > 0, true);
    assert_eq!(c.mongo_uri.chars().count() > 0, true);
    assert_eq!(c.redis_uri.chars().count() > 0, true);
}

#[test]
fn config_holds_what_was_read() {
    assert_eq!(
        settings(),
        Ok(Config {
            port: 8080,
            environment: "development".to_string(),
            mongo_uri: "mongodb://localhost:27017".to_string(),
            redis_uri: "redis://localhost".to_string(),
        })
    );
}

#[test]
fn first_missing_value_is_reported() {
    assert_eq!(Config::init(None, None, None, None), Err(ConfigError::MissingPort));
    assert_eq!(Config::init(some("x"), None, None, None), Err(ConfigError::InvalidPort));
    assert_eq!(Config::init(some("1"), None, None, None), Err(ConfigError::MissingEnvironment));
    assert_eq!(
        Config::init(some("1"), some("dev"), None, None),
        Err(ConfigError::MissingMongoUri)
    );
    assert_eq!(
        Config::init(some("1"), some("dev"), some("m"), None),
        Err(ConfigError::MissingRedisUri)
    );
}

#[test]
fn error_messages() {
    assert_eq!(ConfigError::MissingPort.message(), "incorrect port");
    assert_eq!(ConfigError::InvalidPort.message(), "Can't parse port into number");
    assert_eq!(ConfigError::MissingEnvironment.message(), "incorrect app_env");
    assert_eq!(ConfigError::MissingMongoUri.message(), "incorrect mongo_uri");
    assert_eq!(ConfigError::MissingRedisUri.message(), "incorrect redis_uri");
}

#[test]
fn ports_that_parse() {
    assert_eq!(parse_port("0"), Some(0));
    assert_eq!(parse_port("8080"), Some(8080));
    assert_eq!(parse_port("65535"), Some(65535));
    assert_eq!(parse_port("+443"), Some(443));
    assert_eq!(parse_port("00080"), Some(80));
    assert_eq!(parse_port("000000000000000000000065535"), Some(65535));
}

#[test]
fn ports_that_do_not_parse() {
    for text in [
        "", "+", "-", "-1", "65536", "99999999999999999999", "80 ", " 80", "8_0", "0x50", "8a",
        "++1", "1+", "８０", "1.0",
    ] {
        assert_eq!(parse_port(text), None);
    }
}

#[test]
fn ports_parse_as_the_standard_library_does() {
    for text in [
        "0", "1", "80", "8080", "65535", "65536", "+1", "+", "", "-0", "007", "70000", "4294967296",
        "12ab", " 1", "1 ", "+65535", "+65536", "٣",
    ] {
        assert_eq!(parse_port(text), text.parse::<u16>().ok());
    }
}
