//! Registration, sign-in and email verification: what the forms carry and the
//! decisions the handlers make around the account lookups.

use vstd::prelude::*;

use crate::auth::verify_password_or_dummy;
use crate::crypto::argon2_verify;
use crate::email::byte_len;
use crate::text::{chars_of, string_of, trim, trim_bounds};

verus! {

/// The register and login forms' fields.
pub struct Credentials {
    pub email: String,
    pub password: String,
}

/// The verification link's query: the emailed token.
pub struct VerifyQuery {
    pub token: String,
}

/// Why a registration form is refused before any account is touched.
#[derive(Debug, Clone, Copy, PartialEq, Eq, Structural)]
pub enum RegistrationProblem {
    /// The trimmed address has no `@` or is longer than 254 bytes.
    InvalidEmail,
    /// The password has fewer than eight characters.
    ShortPassword,
}

/// The first problem with a registration form, in the order checked.
pub open spec fn registration_problem(email: Seq<char>, password: Seq<char>) -> Option<
    RegistrationProblem,
> {
    if !trim(email).contains('@') || byte_len(trim(email)) > 254 {
        Some(RegistrationProblem::InvalidEmail)
    } else if password.len() < 8 {
        Some(RegistrationProblem::ShortPassword)
    } else {
        None
    }
}

impl RegistrationProblem {
    /// The message shown on the re-rendered form (an English source string).
    pub fn message(self) -> (r: &'static str)
        ensures
            r@ == match self {
                RegistrationProblem::InvalidEmail => "Enter a valid email address."@,
                RegistrationProblem::ShortPassword => "Password must be at least 8 characters."@,
            },
    {
        match self {
            RegistrationProblem::InvalidEmail => "Enter a valid email address.",
            RegistrationProblem::ShortPassword => "Password must be at least 8 characters.",
        }
    }
}

impl Credentials {
    /// The address the account is keyed on: the form's address, trimmed.
    pub fn trimmed_email(&self) -> (r: String)
        ensures
            r@ == trim(self.email@),
    {
        let v = chars_of(self.email.as_str());
        let (a, b) = trim_bounds(&v, 0, v.len());
        assert(v@.subrange(0, v.len() as int) =~= self.email@);
        string_of(&v, a, b)
    }

    /// Check a registration form: a trimmed address with an `@` and at most
    /// 254 bytes, and a password of at least eight characters.
    pub fn check_registration(&self) -> (r: Option<RegistrationProblem>)
        ensures
            r == registration_problem(self.email@, self.password@),
    {
        let email = self.trimmed_email();
        let v = chars_of(email.as_str());
        let mut has_at = false;
        let mut k: usize = 0;
        while k < v.len()
            invariant
                k <= v@.len(),
                v@ == trim(self.email@),
                has_at == exists|m: int| 0 <= m < k && v@[m] == '@',
            decreases v.len() - k,
        {
            if v[k] == '@' {
                has_at = true;
            }
            k = k + 1;
        }
        proof {
            if has_at {
                let m = choose|m: int| 0 <= m < v@.len() && v@[m] == '@';
                assert(v@.contains('@'));
            }
        }
        if !has_at || email.as_str().as_bytes().len() > 254 {
            return Some(RegistrationProblem::InvalidEmail);
        }
        let p = chars_of(self.password.as_str());
        if p.len() < 8 {
            return Some(RegistrationProblem::ShortPassword);
        }
        None
    }
}

/// What became of the new account's row.
#[derive(Debug, Clone, Copy, PartialEq, Eq, Structural)]
pub enum Registration {
    /// A new account was stored.
    Created,
    /// The address already had an account.
    AlreadyRegistered,
    /// Storing failed.
    Failed,
}

/// How a registration is answered, and whether a verification mail goes out.
#[derive(Debug, Clone, Copy, PartialEq, Eq, Structural)]
pub struct RegistrationReply {
    /// The "check your email" page, or the form again with an error.
    pub check_email: bool,
    /// Whether a verification link is mailed.
    pub send_mail: bool,
}

/// The reply to a registration: a new account is mailed its link; an address
/// that already has one gets the very same page and no mail, so the response
/// cannot tell whether an address has an account.
pub fn registration_reply(outcome: Registration) -> (r: RegistrationReply)
    ensures
        r.check_email == (outcome != Registration::Failed),
        r.send_mail == (outcome == Registration::Created),
{
    match outcome {
        Registration::Created => RegistrationReply { check_email: true, send_mail: true },
        Registration::AlreadyRegistered => RegistrationReply { check_email: true, send_mail: false },
        Registration::Failed => RegistrationReply { check_email: false, send_mail: false },
    }
}

/// What the sign-in handler knows of the account the address is keyed to.
#[derive(Debug, Clone, Copy, PartialEq, Eq, Structural)]
pub struct LoginAccount {
    pub verified: bool,
    pub banned: bool,
}

/// Why a sign-in is refused.
#[derive(Debug, Clone, Copy, PartialEq, Eq, Structural)]
pub enum LoginRefusal {
    /// No such account, or the password does not match: the same answer for
    /// both.
    BadCredentials,
    /// The address was never confirmed.
    Unverified,
    /// The account is suspended.
    Suspended,
}

/// The decision on a sign-in, given whether the password matched (against the
/// account's hash, or the dummy hash when there is no account) and the account.
pub open spec fn login_spec(password_ok: bool, account: Option<LoginAccount>) -> Result<
    (),
    LoginRefusal,
> {
    match account {
        Some(a) => if !password_ok {
            Err(LoginRefusal::BadCredentials)
        } else if !a.verified {
            Err(LoginRefusal::Unverified)
        } else if a.banned {
            Err(LoginRefusal::Suspended)
        } else {
            Ok(())
        },
        None => Err(LoginRefusal::BadCredentials),
    }
}

/// Decide a sign-in: a session is started only for a verified, unsuspended
/// account whose password matched.
pub fn login_decision(password_ok: bool, account: Option<LoginAccount>) -> (r: Result<
    (),
    LoginRefusal,
>)
    ensures
        r == login_spec(password_ok, account),
{
    match account {
        Some(a) => if !password_ok {
            Err(LoginRefusal::BadCredentials)
        } else if !a.verified {
            Err(LoginRefusal::Unverified)
        } else if a.banned {
            Err(LoginRefusal::Suspended)
        } else {
            Ok(())
        },
        None => Err(LoginRefusal::BadCredentials),
    }
}

/// Whether a password matches the stored hash; with no stored hash it never
/// does.
pub open spec fn password_matches(password: Seq<char>, stored: Option<Seq<char>>) -> bool {
    match stored {
        Some(h) => argon2_verify(vstd::utf8::encode_utf8(password), h) == Some(true),
        None => false,
    }
}

/// The answer to a sign-in, from the password typed, the account the address
/// names (if any) and that account's stored hash (if any).
pub open spec fn sign_in_spec(
    password: Seq<char>,
    account: Option<LoginAccount>,
    stored: Option<Seq<char>>,
) -> Result<(), LoginRefusal> {
    login_spec(password_matches(password, stored), account)
}

/// Check a sign-in: one argon2 verification, against the stored hash or, when
/// there is none, against `dummy` (so the time taken does not tell whether the
/// account exists), then the decision.
pub fn sign_in(password: &str, account: Option<LoginAccount>, stored: Option<&str>, dummy: &str) -> (r:
    Result<(), LoginRefusal>)
    ensures
        r == sign_in_spec(
            password@,
            account,
            match stored {
                Some(h) => Some(h@),
                None => None,
            },
        ),
{
    let ok = verify_password_or_dummy(password, stored, dummy);
    login_decision(ok, account)
}

/// A sign-in for an address with no account and one with a wrong password get
/// the same answer, a refusal for bad credentials, whatever the password.
pub proof fn law_missing_account_and_wrong_password_look_alike(
    password: Seq<char>,
    a: LoginAccount,
    h: Seq<char>,
)
    requires
        argon2_verify(vstd::utf8::encode_utf8(password), h) != Some(true),
    ensures
        sign_in_spec(password, None, None) == sign_in_spec(password, Some(a), Some(h)),
        sign_in_spec(password, None, None) == Err::<(), LoginRefusal>(LoginRefusal::BadCredentials),
{
}

impl LoginRefusal {
    /// The message shown on the re-rendered form (an English source string).
    pub fn message(self) -> (r: &'static str)
        ensures
            r@ == match self {
                LoginRefusal::BadCredentials => "Invalid email or password."@,
                LoginRefusal::Unverified => "Please verify your email before logging in."@,
                LoginRefusal::Suspended => "This account has been suspended."@,
            },
    {
        match self {
            LoginRefusal::BadCredentials => "Invalid email or password.",
            LoginRefusal::Unverified => "Please verify your email before logging in.",
            LoginRefusal::Suspended => "This account has been suspended.",
        }
    }
}

/// A sign-in for an address with no account is refused exactly as one with a
/// wrong password, and a registration for a taken address is answered exactly
/// as one for a new address: neither response tells whether an account exists.
pub proof fn law_existence_not_revealed(password_ok: bool, a: LoginAccount)
    ensures
        login_spec(password_ok, None) == login_spec(false, Some(a)),
        registration_reply_spec(Registration::Created).check_email
            == registration_reply_spec(Registration::AlreadyRegistered).check_email,
{
}

/// The page a registration is answered with (true: "check your email").
pub open spec fn registration_reply_spec(outcome: Registration) -> RegistrationReply {
    RegistrationReply {
        check_email: outcome != Registration::Failed,
        send_mail: outcome == Registration::Created,
    }
}

} // verus!
