use open_public::i18n::{Lang, Translations};
use open_public::mail::{mail_content, mail_link, text_body, MailKind};

#[test]
fn the_mail_is_plain_text_with_the_link_and_nothing_that_loads() {
    let body = text_body(
        "Confirm your email address to activate your account:",
        "https://open-public.test/verify?token=abc123",
        "If you did not create an account, ignore this message.",
    );

    // The link is present, once, on its own line where no client can mangle
    // it, and it is the whole of the recipient's trust decision: they see
    // the real URL, not a button hiding one.
    assert!(body.contains("\nhttps://open-public.test/verify?token=abc123\n"));
    assert_eq!(
        body.matches("open-public.test/verify?token=abc123").count(),
        1
    );

    // No markup at all: nothing to render differently per client, and
    // nothing that could fetch a resource and so report that the mail was
    // opened.
    for forbidden in ["<", ">", "href", "src=", "http://", "@import", "url("] {
        assert!(
            !body.contains(forbidden),
            "a plain-text mail must not contain `{forbidden}`"
        );
    }
}

#[test]
fn the_body_is_exactly_intro_link_and_outro() {
    assert_eq!(text_body("a", "b", "c"), "a\n\nb\n\nc\n");
}

#[test]
fn links_carry_the_token_on_the_right_path() {
    assert_eq!(
        mail_link(MailKind::Verification, "http://x.test", "tok"),
        "http://x.test/verify?token=tok"
    );
    assert_eq!(
        mail_link(MailKind::PasswordReset, "http://x.test", "tok"),
        "http://x.test/reset?token=tok"
    );
}

#[test]
fn a_verification_mail_in_english_and_in_translation() {
    let none = Translations::parse("", "", "");
    let m = mail_content(MailKind::Verification, "http://x.test", "t1", Lang::En, &none);
    assert_eq!(m.subject, "Verify your email");
    assert_eq!(m.link, "http://x.test/verify?token=t1");
    assert_eq!(
        m.body,
        "Confirm your email address to activate your account:\n\nhttp://x.test/verify?token=t1\n\nIf you did not create an account, ignore this message. The link expires in 24 hours.\n"
    );
    let tr = Translations::parse(
        "msgid \"Set a new password\"\nmsgstr \"Yeni parola belirleyin\"\n",
        "",
        "",
    );
    let r = mail_content(MailKind::PasswordReset, "http://x.test", "t2", Lang::Tr, &tr);
    assert_eq!(r.subject, "Yeni parola belirleyin");
    assert!(r.body.starts_with("Use this link to set a new password:\n\nhttp://x.test/reset?token=t2\n\n"));
}
