use open_public::config::{config_from, site_addr_text, ConfigError, ConfigValues, MailTransport};

fn source(pairs: &[(&str, &str)]) -> Vec<(String, String)> {
    pairs
        .iter()
        .map(|(k, v)| (k.to_string(), v.to_string()))
        .collect()
}

/// Configure from the pairs as the server does: the bind address is parsed as
/// a socket address first, and the library is told whether that worked.
fn from(pairs: &[(&str, &str)]) -> Result<ConfigValues, ConfigError> {
    let vars = source(pairs);
    let parses = site_addr_text(&vars).parse::<core::net::SocketAddr>().is_ok();
    config_from(&vars, parses)
}

#[test]
fn minimal_valid_config() {
    let cfg = from(&[("DATABASE_URL", "postgres://x"), ("APP_SECRET", "s")]).unwrap();
    assert_eq!(cfg.database_url, "postgres://x");
    assert!(!cfg.cookie_secure);
    assert!(matches!(cfg.mail_transport, MailTransport::Console));
    assert_eq!(cfg.mail_from, "noreply@localhost");
}

#[test]
fn static_dir_override_and_dev_secret_warning() {
    // The dev-default secret path is flagged; a STATIC_DIR is honored.
    let cfg = from(&[
        ("DATABASE_URL", "x"),
        ("APP_SECRET", "dev-only-change-me"),
        ("STATIC_DIR", "/custom/static"),
    ])
    .unwrap();
    assert_eq!(cfg.static_dir.as_deref(), Some("/custom/static"));
    assert!(cfg.uses_dev_secret);
}

#[test]
fn asset_dir_defaults_and_overrides() {
    let cfg = from(&[("DATABASE_URL", "x"), ("APP_SECRET", "s")]).unwrap();
    assert_eq!(cfg.asset_dir, "./data/assets");
    let cfg = from(&[
        ("DATABASE_URL", "x"),
        ("APP_SECRET", "s"),
        ("ASSET_DIR", "/srv/assets"),
    ])
    .unwrap();
    assert_eq!(cfg.asset_dir, "/srv/assets");
}

#[test]
fn review_is_configured_only_with_a_key() {
    let cfg = from(&[("DATABASE_URL", "x"), ("APP_SECRET", "s")]).unwrap();
    assert!(cfg.review.is_none());
    let cfg = from(&[
        ("DATABASE_URL", "x"),
        ("APP_SECRET", "s"),
        ("DEEPSEEK_API_KEY", "sk-test"),
        ("DEEPSEEK_BASE_URL", "https://api.deepseek.com/"),
    ])
    .unwrap();
    let review = cfg.review.expect("review configured");
    assert_eq!(review.model, "deepseek-chat"); // default model
    assert_eq!(review.base_url, "https://api.deepseek.com"); // trailing slash trimmed
}

#[test]
fn https_base_url_enables_secure_cookies_and_trims_slash() {
    let cfg = from(&[
        ("DATABASE_URL", "x"),
        ("APP_SECRET", "s"),
        ("PUBLIC_BASE_URL", "https://open-public.com/"),
    ])
    .unwrap();
    assert!(cfg.cookie_secure);
    assert_eq!(cfg.base_url, "https://open-public.com");
}

#[test]
fn missing_database_url_errors() {
    assert!(from(&[("APP_SECRET", "s")]).is_err());
}

#[test]
fn missing_or_empty_app_secret_errors() {
    assert!(from(&[("DATABASE_URL", "x")]).is_err());
    assert!(from(&[("DATABASE_URL", "x"), ("APP_SECRET", "   ")]).is_err());
}

#[test]
fn smtp_transport_is_parsed() {
    let cfg = from(&[
        ("DATABASE_URL", "x"),
        ("APP_SECRET", "s"),
        ("MAIL_TRANSPORT", "smtp"),
        ("SMTP_HOST", "smtp.example.com"),
        ("SMTP_PORT", "2525"),
    ])
    .unwrap();
    match cfg.mail_transport {
        MailTransport::Smtp { host, port, .. } => {
            assert_eq!(host, "smtp.example.com");
            assert_eq!(port, 2525);
        }
        MailTransport::Console => panic!("expected smtp"),
    }
}

#[test]
fn smtp_without_host_errors() {
    assert!(from(&[
        ("DATABASE_URL", "x"),
        ("APP_SECRET", "s"),
        ("MAIL_TRANSPORT", "smtp"),
    ])
    .is_err());
}

#[test]
fn bad_smtp_port_errors() {
    assert!(from(&[
        ("DATABASE_URL", "x"),
        ("APP_SECRET", "s"),
        ("MAIL_TRANSPORT", "smtp"),
        ("SMTP_HOST", "h"),
        ("SMTP_PORT", "not-a-port"),
    ])
    .is_err());
}

#[test]
fn unknown_mail_transport_errors() {
    assert!(from(&[
        ("DATABASE_URL", "x"),
        ("APP_SECRET", "s"),
        ("MAIL_TRANSPORT", "carrier-pigeon"),
    ])
    .is_err());
}

#[test]
fn each_problem_is_named() {
    assert!(matches!(from(&[]), Err(ConfigError::DatabaseUrlMissing)));
    assert!(matches!(from(&[("DATABASE_URL", "x")]), Err(ConfigError::AppSecretMissing)));
    assert!(matches!(
        from(&[("DATABASE_URL", "x"), ("APP_SECRET", "\t")]),
        Err(ConfigError::AppSecretEmpty)
    ));
    assert!(matches!(
        from(&[("DATABASE_URL", "x"), ("APP_SECRET", "s"), ("MAIL_TRANSPORT", "smtp")]),
        Err(ConfigError::SmtpHostMissing)
    ));
    assert!(matches!(
        from(&[
            ("DATABASE_URL", "x"),
            ("APP_SECRET", "s"),
            ("MAIL_TRANSPORT", "smtp"),
            ("SMTP_HOST", "h"),
            ("SMTP_PORT", "70000"),
        ]),
        Err(ConfigError::SmtpPortInvalid)
    ));
    match from(&[("DATABASE_URL", "x"), ("APP_SECRET", "s"), ("MAIL_TRANSPORT", "pigeon")]) {
        Err(ConfigError::MailTransportUnknown(v)) => assert_eq!(v, "pigeon"),
        _ => panic!("expected an unknown transport"),
    }
}

#[test]
fn defaults_and_the_last_assignment_win() {
    let cfg = from(&[
        ("DATABASE_URL", "first"),
        ("APP_SECRET", "s"),
        ("DATABASE_URL", "second"),
        ("MAIL_TRANSPORT", "smtp"),
        ("SMTP_HOST", "h"),
        ("DEEPSEEK_API_KEY", "   "),
    ])
    .unwrap();
    assert_eq!(cfg.database_url, "second");
    assert_eq!(cfg.site_addr, "127.0.0.1:3000");
    assert_eq!(cfg.base_url, "http://127.0.0.1:3000");
    assert!(cfg.static_dir.is_none());
    assert!(!cfg.uses_dev_secret);
    assert!(cfg.review.is_none());
    match cfg.mail_transport {
        MailTransport::Smtp { port, user, pass, .. } => {
            assert_eq!(port, 587);
            assert_eq!(user, "");
            assert_eq!(pass, "");
        }
        MailTransport::Console => panic!("expected smtp"),
    }
}

#[test]
fn bad_site_addr_errors() {
    assert!(from(&[
        ("DATABASE_URL", "x"),
        ("APP_SECRET", "s"),
        ("SITE_ADDR", "not-an-addr"),
    ])
    .is_err());
}

#[test]
fn the_bind_address_is_checked_before_anything_else() {
    // Even with no database URL, a bad bind address is the error reported.
    assert!(matches!(
        from(&[("SITE_ADDR", "nope")]),
        Err(ConfigError::SiteAddrInvalid)
    ));
    let cfg = from(&[("DATABASE_URL", "x"), ("APP_SECRET", "s"), ("SITE_ADDR", "0.0.0.0:8080")]).unwrap();
    assert_eq!(cfg.site_addr, "0.0.0.0:8080");
    assert_eq!(from(&[("DATABASE_URL", "x"), ("APP_SECRET", "s")]).unwrap().site_addr, "127.0.0.1:3000");
}
