use tscrapingbot_rs::config::{
    dotenv_allowed, dotenv_wanted, parse_u16, switch_value, AppConfig, ConfigError, EnvValues, RunMode,
};

fn values() -> EnvValues {
    EnvValues {
        database_url: Some("postgresql://hello".to_string()),
        teloxide_token: Some("tok".to_string()),
        gemini_api_key: Some("asd".to_string()),
        hosting: Some("true".to_string()),
        webhook_url: Some("https://example.com/hook".to_string()),
        port: Some("1234".to_string()),
    }
}

#[test]
fn settings_are_made_from_all_values() {
    let cfg = match AppConfig::from_values(values()) {
        Ok(cfg) => cfg,
        Err(e) => panic!("{}", e.message()),
    };
    assert_eq!(cfg.database_url, "postgresql://hello");
    assert_eq!(cfg.token, "tok");
    assert_eq!(cfg.gemini_api_key, "asd");
    assert!(cfg.hosting);
    assert_eq!(cfg.port, 1234);
    assert_eq!(cfg.webhook_url.unwrap().as_str(), "https://example.com/hook");
}

#[test]
fn missing_token_is_reported() {
    let mut v = values();
    v.teloxide_token = None;
    v.hosting = Some("false".to_string());
    match AppConfig::from_values(v) {
        Err(ConfigError::MissingEnv("TELOXIDE_TOKEN")) => {}
        _ => panic!("expected MissingEnv TELOXIDE_TOKEN"),
    }
}

#[test]
fn missing_values_are_reported_in_order() {
    let mut v = values();
    v.database_url = None;
    v.teloxide_token = None;
    assert!(matches!(AppConfig::from_values(v), Err(ConfigError::MissingEnv("DATABASE_URL"))));
    let mut v = values();
    v.gemini_api_key = None;
    v.hosting = None;
    assert!(matches!(AppConfig::from_values(v), Err(ConfigError::MissingEnv("GEMINI_API_KEY"))));
    let mut v = values();
    v.hosting = None;
    v.webhook_url = Some("::".to_string());
    match AppConfig::from_values(v) {
        Err(e) => assert_eq!(e.message(), "missing environment variable: HOSTING"),
        Ok(_) => panic!("expected an error"),
    }
}

#[test]
fn hosting_is_read_in_any_case() {
    for (text, expected) in [("TRUE", true), ("Yes", true), ("1", true), ("No", false), ("0", false), ("fAlSe", false)] {
        let mut v = values();
        v.hosting = Some(text.to_string());
        match AppConfig::from_values(v) {
            Ok(cfg) => assert_eq!(cfg.hosting, expected),
            Err(e) => panic!("{}", e.message()),
        }
    }
}

#[test]
fn invalid_hosting_carries_the_lowered_value() {
    let mut v = values();
    v.hosting = Some("MAYBE".to_string());
    match AppConfig::from_values(v) {
        Err(ConfigError::InvalidHosting(value)) => assert_eq!(value, "maybe"),
        _ => panic!("expected InvalidHosting"),
    }
    let mut v = values();
    v.hosting = Some(" true".to_string());
    match AppConfig::from_values(v) {
        Err(e) => assert_eq!(e.message(), "invalid HOSTING value (expected true|false):  true"),
        Ok(_) => panic!("expected an error"),
    }
}

#[test]
fn webhook_url_is_optional_but_must_parse() {
    let mut v = values();
    v.webhook_url = None;
    assert!(AppConfig::from_values(v).ok().unwrap().webhook_url.is_none());
    let mut v = values();
    v.webhook_url = Some("  \t".to_string());
    assert!(AppConfig::from_values(v).ok().unwrap().webhook_url.is_none());
    let mut v = values();
    v.webhook_url = Some("not a url".to_string());
    match AppConfig::from_values(v) {
        Err(ConfigError::InvalidWebhookUrl(value)) => assert_eq!(value, "not a url"),
        _ => panic!("expected InvalidWebhookUrl"),
    }
    let mut v = values();
    v.webhook_url = Some("nope".to_string());
    match AppConfig::from_values(v) {
        Err(e) => assert_eq!(e.message(), "invalid WEBHOOK_URL: nope"),
        Ok(_) => panic!("expected an error"),
    }
}

#[test]
fn port_falls_back_to_the_default() {
    for (text, expected) in [
        (Some("80"), 80u16),
        (Some("+80"), 80),
        (Some("00443"), 443),
        (Some("65535"), 65535),
        (Some("65536"), 8080),
        (Some("99999999999999999999"), 8080),
        (Some(""), 8080),
        (Some("+"), 8080),
        (Some("-1"), 8080),
        (Some(" 80"), 8080),
        (Some("8o"), 8080),
        (None, 8080),
    ] {
        let mut v = values();
        v.port = text.map(|t| t.to_string());
        assert_eq!(AppConfig::from_values(v).ok().unwrap().port, expected, "port {:?}", text);
    }
}

#[test]
fn numbers_are_read_as_std_reads_them() {
    for text in ["0", "7", "+7", "++7", "-0", "65535", "65536", "0065535", "1e3", "١٢", "", "+", "123456", "12 "] {
        assert_eq!(parse_u16(text), text.parse::<u16>().ok(), "text {:?}", text);
    }
}

#[test]
fn switches_are_read() {
    assert_eq!(switch_value("true"), Some(true));
    assert_eq!(switch_value("yes"), Some(true));
    assert_eq!(switch_value("1"), Some(true));
    assert_eq!(switch_value("false"), Some(false));
    assert_eq!(switch_value("no"), Some(false));
    assert_eq!(switch_value("0"), Some(false));
    assert_eq!(switch_value("True"), None);
    assert_eq!(switch_value(""), None);
}

#[test]
fn dotenv_is_loaded_unless_disabled() {
    assert!(dotenv_wanted(None));
    assert!(dotenv_wanted(Some("0")));
    assert!(dotenv_wanted(Some("whatever")));
    assert!(!dotenv_wanted(Some("1")));
    assert!(!dotenv_wanted(Some("TRUE")));
    assert!(!dotenv_wanted(Some("Yes")));
    assert!(dotenv_allowed("false"));
    assert!(!dotenv_allowed("yes"));
}

#[test]
fn run_mode_follows_hosting_and_webhook() {
    let mut v = values();
    v.hosting = Some("false".to_string());
    assert!(matches!(AppConfig::from_values(v).ok().unwrap().run_mode(), Ok(RunMode::Polling)));
    assert!(matches!(AppConfig::from_values(values()).ok().unwrap().run_mode(), Ok(RunMode::Webhook)));
    let mut v = values();
    v.webhook_url = None;
    match AppConfig::from_values(v).ok().unwrap().run_mode() {
        Err(e) => assert_eq!(e.message(), "missing environment variable: WEBHOOK_URL"),
        Ok(_) => panic!("expected an error"),
    }
}
