//! Transactional mail: what is sent, not how. A mail is plain text: a short
//! explanation, the link on its own line, and a closing note.

use vstd::prelude::*;

use crate::i18n::{translate, Lang, Translations};
use crate::text::{push_char, push_str};

verus! {

/// The plain-text body: the explanation, a blank line, the link on its own
/// line, a blank line, the closing note and a final newline.
pub open spec fn text_body_spec(intro: Seq<char>, link: Seq<char>, outro: Seq<char>) -> Seq<char> {
    intro + seq!['\n', '\n'] + link + seq!['\n', '\n'] + outro + seq!['\n']
}

/// The plain-text body of a transactional mail: the explanation, the link on
/// its own line so no client mangles it, then the closing note.
pub fn text_body(intro: &str, link: &str, outro: &str) -> (r: String)
    ensures
        r@ == text_body_spec(intro@, link@, outro@),
{
    let mut s = String::new();
    push_str(&mut s, intro);
    push_char(&mut s, '\n');
    push_char(&mut s, '\n');
    push_str(&mut s, link);
    push_char(&mut s, '\n');
    push_char(&mut s, '\n');
    push_str(&mut s, outro);
    push_char(&mut s, '\n');
    assert(s@ =~= text_body_spec(intro@, link@, outro@));
    s
}

/// A mail body holds nothing but its three parts and line breaks: no markup
/// can enter it that the parts did not carry.
pub proof fn law_body_is_its_parts(intro: Seq<char>, link: Seq<char>, outro: Seq<char>, c: char)
    ensures
        text_body_spec(intro, link, outro).contains(c) ==> c == '\n' || intro.contains(c)
            || link.contains(c) || outro.contains(c),
{
    let b = text_body_spec(intro, link, outro);
    if b.contains(c) {
        let k = choose|k: int| 0 <= k < b.len() && b[k] == c;
        let n1 = intro.len() as int;
        let n2 = n1 + 2 + link.len();
        let n3 = n2 + 2 + outro.len();
        if k < n1 {
            assert(intro[k] == c);
        } else if n1 + 2 <= k < n2 {
            assert(link[k - n1 - 2] == c);
        } else if n2 + 2 <= k < n3 {
            assert(outro[k - n2 - 2] == c);
        }
    }
}

/// The two mails the site sends.
#[derive(PartialEq, Eq, Structural, Clone, Copy, Debug)]
pub enum MailKind {
    /// Confirms an address at registration.
    Verification,
    /// Sets a new password.
    PasswordReset,
}

/// The path a mail's link opens, before the token.
pub open spec fn link_path(kind: MailKind) -> Seq<char> {
    match kind {
        MailKind::Verification => seq!['/', 'v', 'e', 'r', 'i', 'f', 'y', '?', 't', 'o', 'k', 'e', 'n', '='],
        MailKind::PasswordReset => seq!['/', 'r', 'e', 's', 'e', 't', '?', 't', 'o', 'k', 'e', 'n', '='],
    }
}

/// A mail ready to hand to a transport.
pub struct MailContent {
    pub subject: String,
    pub link: String,
    pub body: String,
}

/// The English source strings of a mail: subject, explanation, closing note.
fn source_texts(kind: MailKind) -> (r: (&'static str, &'static str, &'static str))
    ensures
        r == source_texts_spec(kind),
{
    match kind {
        MailKind::Verification => (
            "Verify your email",
            "Confirm your email address to activate your account:",
            "If you did not create an account, ignore this message. The link expires in 24 hours.",
        ),
        MailKind::PasswordReset => (
            "Set a new password",
            "Use this link to set a new password:",
            "If you did not ask for this, ignore this message and your password stays as it is. The link expires in one hour.",
        ),
    }
}

/// The English source strings of each mail.
pub open spec fn source_texts_spec(kind: MailKind) -> (&'static str, &'static str, &'static str) {
    match kind {
        MailKind::Verification => (
            "Verify your email",
            "Confirm your email address to activate your account:",
            "If you did not create an account, ignore this message. The link expires in 24 hours.",
        ),
        MailKind::PasswordReset => (
            "Set a new password",
            "Use this link to set a new password:",
            "If you did not ask for this, ignore this message and your password stays as it is. The link expires in one hour.",
        ),
    }
}

/// The link a mail carries: the public origin, the mail's path and the token.
pub fn mail_link(kind: MailKind, base_url: &str, token: &str) -> (r: String)
    ensures
        r@ == base_url@ + link_path(kind) + token@,
{
    let mut s = String::new();
    push_str(&mut s, base_url);
    match kind {
        MailKind::Verification => push_str(&mut s, "/verify?token="),
        MailKind::PasswordReset => push_str(&mut s, "/reset?token="),
    }
    proof {
        reveal_strlit("/verify?token=");
        reveal_strlit("/reset?token=");
    }
    push_str(&mut s, token);
    assert(s@ =~= base_url@ + link_path(kind) + token@);
    s
}

/// The mail of `kind` for `token`, in language `lang`: the translated subject,
/// the link, and the plain-text body around it.
pub fn mail_content(
    kind: MailKind,
    base_url: &str,
    token: &str,
    lang: Lang,
    tr: &Translations,
) -> (r: MailContent)
    ensures
        r.link@ == base_url@ + link_path(kind) + token@,
        r.subject@ == translate(tr, lang, source_texts_spec(kind).0@),
        r.body@ == text_body_spec(
            translate(tr, lang, source_texts_spec(kind).1@),
            r.link@,
            translate(tr, lang, source_texts_spec(kind).2@),
        ),
{
    let (subject, intro, outro) = source_texts(kind);
    let link = mail_link(kind, base_url, token);
    let body = text_body(lang.t(tr, intro), link.as_str(), lang.t(tr, outro));
    let mut subject_text = String::new();
    push_str(&mut subject_text, lang.t(tr, subject));
    MailContent { subject: subject_text, link, body }
}

} // verus!
