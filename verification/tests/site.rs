use open_public::admin_account::{admin_key, is_plausible_address, AdminInputError, Outcome};
use open_public::api::{check_news, check_outlet, check_source, constant_time_eq, key_accepted, ApiError};
use open_public::auth::hash_email;
use open_public::content::Localized;
use open_public::i18n::Lang;
use open_public::site::{deployment_value, language_switch, same_site_path};

#[test]
fn constant_time_eq_matches_and_rejects() {
    assert!(constant_time_eq(b"secret", b"secret"));
    assert!(!constant_time_eq(b"secret", b"secreu"));
    assert!(!constant_time_eq(b"secret", b"secre"));
}

#[test]
fn the_api_answers_only_the_configured_key() {
    assert!(key_accepted(Some("k3y"), Some("Bearer k3y")));
    assert!(!key_accepted(Some("k3y"), Some("Bearer k3z")));
    assert!(!key_accepted(Some("k3y"), Some("k3y")));
    assert!(!key_accepted(Some("k3y"), None));
    assert!(!key_accepted(None, Some("Bearer k3y")));
}

#[test]
fn api_payloads_are_checked_in_order() {
    assert!(matches!(check_source(" ", "rss"), Err(ApiError::BadRequest("url is required"))));
    assert!(matches!(check_source("u", " "), Err(ApiError::BadRequest("kind is required"))));
    let (u, k) = check_source(" u ", " rss ").ok().unwrap();
    assert_eq!((u.as_str(), k.as_str()), ("u", "rss"));
    let (_, h, s) = check_news("u", " H ", Some("  ")).ok().unwrap();
    assert_eq!((h.as_str(), s), ("H", None));
    assert!(matches!(
        check_news("u", "", None),
        Err(ApiError::BadRequest("headline is required"))
    ));
    assert!(matches!(
        check_outlet("s", "n", Some("far_right"), None),
        Err(ApiError::BadRequest(_))
    ));
    let (_, _, l, _) = check_outlet("s", "n", Some(" lean_left "), None).ok().unwrap();
    assert_eq!(l.as_deref(), Some("lean_left"));
    assert_eq!(ApiError::Internal.status_and_message(), (500, "internal error"));
}

#[test]
fn referers_collapse_to_same_site_paths() {
    assert_eq!(same_site_path("https://x.test/uk/people?q=1"), Some("/uk/people?q=1".to_string()));
    assert_eq!(same_site_path("http://evil.test/a"), Some("/a".to_string()));
    assert_eq!(same_site_path("http://evil.test"), None);
    assert_eq!(same_site_path("/local"), Some("/local".to_string()));
    assert_eq!(same_site_path("ftp://x/y"), None);
    assert_eq!(same_site_path(""), None);
    // A protocol-relative path names another host: it is never returned.
    assert_eq!(same_site_path("//evil.example/x"), None);
    assert_eq!(same_site_path("https://host//x"), None);
    assert_eq!(same_site_path("https://evil.example/a?b"), Some("/a?b".to_string()));
}

#[test]
fn a_language_switch_sets_the_language_and_goes_back() {
    let (l, back) = language_switch("de", Some("https://x.test/uk"));
    assert_eq!(l, Lang::De);
    assert_eq!(back, "/uk");
    let (l, back) = language_switch("xx", None);
    assert_eq!(l, Lang::En);
    assert_eq!(back, "/");
    let (_, back) = language_switch("tr", Some("javascript:alert(1)"));
    assert_eq!(back, "/");
}

#[test]
fn translations_overlay_originals() {
    let loc = Localized::from_pairs(vec![
        ("summary".to_string(), "Özet".to_string()),
        ("title".to_string(), "Başlık".to_string()),
    ]);
    assert_eq!(loc.get("summary", Some("Summary")), Some("Özet"));
    assert_eq!(loc.get("body", Some("Body")), Some("Body"));
    assert_eq!(loc.get("body", None), None);
    assert!(loc.is_translated("title"));
    assert!(!loc.is_translated("body"));
    let empty = Localized::empty();
    assert_eq!(empty.get("summary", Some("Summary")), Some("Summary"));
}

#[test]
fn the_first_admin_needs_a_plausible_address_and_password() {
    assert!(is_plausible_address(" admin@example.org "));
    assert!(!is_plausible_address("admin@localhost"));
    assert!(!is_plausible_address("@example.org"));
    assert!(!is_plausible_address("a@b@example.org"));
    assert!(!is_plausible_address("a@.example.org"));
    assert!(!is_plausible_address("a@example.org."));
    assert!(matches!(admin_key("nope", "longenough", b"s"), Err(AdminInputError::ImplausibleAddress)));
    assert!(matches!(admin_key("a@b.c", "short", b"s"), Err(AdminInputError::ShortPassword)));
    let k = admin_key("  A@B.c ", "longenough", b"s").ok().unwrap();
    assert_eq!(k, hash_email("a@b.c", b"s").unwrap());
    assert_ne!(Outcome::Created, Outcome::Promoted);
}

#[test]
fn an_empty_deployment_value_counts_as_unset() {
    assert_eq!(deployment_value(None), None);
    assert_eq!(deployment_value(Some(String::new())), None);
    assert_eq!(deployment_value(Some("sha256:ab".to_string())), Some("sha256:ab".to_string()));
}
