//! Runtime configuration, read from a set of named variables (the process
//! environment in production).

use vstd::prelude::*;

use crate::email::trim_end_char;
use crate::i18n::{lemma_pairs_map_last, pairs_map, pairs_view};
use crate::num::{parse_in_range, parse_u16};
use crate::text::{chars_of, has_prefix, str_eq, string_of, trim, trim_bounds};

verus! {

/// How verification mail is delivered.
pub enum MailTransport {
    /// Log the verification link to the server log instead of sending.
    Console,
    /// Send over SMTP with STARTTLS.
    Smtp { host: String, port: u16, user: String, pass: String },
}

/// Settings for the automated poll screening (an OpenAI-compatible chat API).
#[derive(Clone)]
pub struct ReviewConfig {
    pub api_key: String,
    pub model: String,
    pub base_url: String,
}

/// The configuration the variables describe. The bind address is kept as text
/// (it is parsed into a socket address where the server binds), and the static
/// directory is `None` when the build's own `static` directory is meant.
pub struct ConfigValues {
    pub site_addr: String,
    pub static_dir: Option<String>,
    pub database_url: String,
    pub app_secret: String,
    pub uses_dev_secret: bool,
    pub base_url: String,
    pub cookie_secure: bool,
    pub mail_transport: MailTransport,
    pub mail_from: String,
    pub asset_dir: String,
    pub review: Option<ReviewConfig>,
}

/// Why the variables do not make a configuration.
#[derive(Debug)]
pub enum ConfigError {
    /// `SITE_ADDR` is not a `host:port` socket address.
    SiteAddrInvalid,
    DatabaseUrlMissing,
    AppSecretMissing,
    AppSecretEmpty,
    SmtpHostMissing,
    SmtpPortInvalid,
    /// `MAIL_TRANSPORT` was neither `console` nor `smtp`; the value given.
    MailTransportUnknown(String),
}

/// The value of a variable (the last assignment wins).
pub open spec fn env_get(vars: Seq<(String, String)>, key: Seq<char>) -> Option<Seq<char>> {
    let m = pairs_map(pairs_view(vars));
    if m.contains_key(key) {
        Some(m[key])
    } else {
        None
    }
}

/// A variable's value, or `default` when unset.
pub open spec fn env_or(vars: Seq<(String, String)>, key: Seq<char>, default: Seq<char>) -> Seq<char> {
    match env_get(vars, key) {
        Some(v) => v,
        None => default,
    }
}

/// Look a variable up.
pub fn var(vars: &Vec<(String, String)>, key: &str) -> (r: Option<String>)
    ensures
        match r {
            Some(v) => env_get(vars@, key@) == Some(v@),
            None => env_get(vars@, key@) is None,
        },
{
    let ghost p = pairs_view(vars@);
    let mut k = vars.len();
    while k > 0
        invariant
            k <= vars@.len(),
            p == pairs_view(vars@),
            forall|m: int| k <= m < p.len() ==> (#[trigger] p[m]).0 != key@,
        decreases k,
    {
        k = k - 1;
        if str_eq(vars[k].0.as_str(), key) {
            proof {
                lemma_pairs_map_last(p, key@, k as int);
            }
            return Some(vars[k].1.clone());
        }
    }
    proof {
        lemma_pairs_map_last(p, key@, -1);
    }
    None
}

/// `s` without its trailing `/` characters (`trim_end_matches('/')`).
pub fn trim_trailing_slashes(s: &str) -> (r: String)
    ensures
        r@ == trim_end_char(s@, '/'),
{
    let v = chars_of(s);
    let mut b = v.len();
    while b > 0 && v[b - 1] == '/'
        invariant
            b <= v@.len(),
            forall|m: int| b <= m < v@.len() ==> v@[m] == '/',
        decreases b,
    {
        b = b - 1;
    }
    proof {
        lemma_trim_end_char(v@, '/', b as int);
    }
    string_of(&v, 0, b)
}

proof fn lemma_trim_end_char(s: Seq<char>, c: char, j: int)
    requires
        0 <= j <= s.len(),
        forall|m: int| j <= m < s.len() ==> s[m] == c,
        j == 0 || s[j - 1] != c,
    ensures
        trim_end_char(s, c) == s.subrange(0, j),
    decreases s.len(),
{
    if j < s.len() {
        lemma_trim_end_char(s.drop_last(), c, j);
        assert(s.drop_last().subrange(0, j) == s.subrange(0, j));
    } else {
        assert(s.subrange(0, j) =~= s);
    }
}

/// Whether a text is blank (nothing left after trimming).
fn blank(s: &str) -> (r: bool)
    ensures
        r == (trim(s@).len() == 0),
{
    let v = chars_of(s);
    let (a, b) = trim_bounds(&v, 0, v.len());
    assert(v@.subrange(0, v.len() as int) =~= s@);
    a == b
}

/// The bind address the variables give: `SITE_ADDR`, or `127.0.0.1:3000`.
pub open spec fn site_addr_spec(vars: Seq<(String, String)>) -> Seq<char> {
    env_or(vars, "SITE_ADDR"@, "127.0.0.1:3000"@)
}

/// The bind address as text: `SITE_ADDR`, or `127.0.0.1:3000` when unset. The
/// server parses it as a socket address and hands [`config_from`] whether
/// that worked.
pub fn site_addr_text(vars: &Vec<(String, String)>) -> (r: String)
    ensures
        r@ == site_addr_spec(vars@),
{
    match var(vars, "SITE_ADDR") {
        Some(s) => s,
        None => String::from_str("127.0.0.1:3000"),
    }
}

/// The first problem with the variables, in the order they are checked; the
/// bind address first, given whether it parses as `host:port`.
pub open spec fn config_error_spec(vars: Seq<(String, String)>, site_addr_ok: bool) -> Option<
    ConfigErrorKind,
> {
    if !site_addr_ok {
        Some(ConfigErrorKind::SiteAddrInvalid)
    } else if env_get(vars, "DATABASE_URL"@) is None {
        Some(ConfigErrorKind::DatabaseUrlMissing)
    } else if env_get(vars, "APP_SECRET"@) is None {
        Some(ConfigErrorKind::AppSecretMissing)
    } else if trim(env_get(vars, "APP_SECRET"@)->0).len() == 0 {
        Some(ConfigErrorKind::AppSecretEmpty)
    } else {
        let t = env_or(vars, "MAIL_TRANSPORT"@, "console"@);
        if t == "console"@ {
            None
        } else if t == "smtp"@ {
            if env_get(vars, "SMTP_HOST"@) is None {
                Some(ConfigErrorKind::SmtpHostMissing)
            } else if parse_in_range(env_or(vars, "SMTP_PORT"@, "587"@), false, 0, u16::MAX as int)
                is None {
                Some(ConfigErrorKind::SmtpPortInvalid)
            } else {
                None
            }
        } else {
            Some(ConfigErrorKind::MailTransportUnknown(t))
        }
    }
}

/// A configuration error as plain values.
pub enum ConfigErrorKind {
    SiteAddrInvalid,
    DatabaseUrlMissing,
    AppSecretMissing,
    AppSecretEmpty,
    SmtpHostMissing,
    SmtpPortInvalid,
    MailTransportUnknown(Seq<char>),
}

/// The error as plain values.
pub open spec fn error_kind(e: ConfigError) -> ConfigErrorKind {
    match e {
        ConfigError::SiteAddrInvalid => ConfigErrorKind::SiteAddrInvalid,
        ConfigError::DatabaseUrlMissing => ConfigErrorKind::DatabaseUrlMissing,
        ConfigError::AppSecretMissing => ConfigErrorKind::AppSecretMissing,
        ConfigError::AppSecretEmpty => ConfigErrorKind::AppSecretEmpty,
        ConfigError::SmtpHostMissing => ConfigErrorKind::SmtpHostMissing,
        ConfigError::SmtpPortInvalid => ConfigErrorKind::SmtpPortInvalid,
        ConfigError::MailTransportUnknown(s) => ConfigErrorKind::MailTransportUnknown(s@),
    }
}

/// Whether `m` is the transport the variables choose: the console when
/// `MAIL_TRANSPORT` is `console` (its default); for `smtp`, SMTP to
/// `SMTP_HOST` on `SMTP_PORT` (587 by default) with `SMTP_USER` and
/// `SMTP_PASS` (empty by default).
pub open spec fn transport_chosen(vars: Seq<(String, String)>, m: MailTransport) -> bool {
    let t = env_or(vars, "MAIL_TRANSPORT"@, "console"@);
    match m {
        MailTransport::Console => t == "console"@,
        MailTransport::Smtp { host, port, user, pass } => {
            &&& t == "smtp"@
            &&& env_get(vars, "SMTP_HOST"@) == Some(host@)
            &&& parse_in_range(env_or(vars, "SMTP_PORT"@, "587"@), false, 0, u16::MAX as int)
                == Some(port as int)
            &&& user@ == env_or(vars, "SMTP_USER"@, Seq::<char>::empty())
            &&& pass@ == env_or(vars, "SMTP_PASS"@, Seq::<char>::empty())
        },
    }
}

/// The mail transport the variables choose.
pub fn mail_transport(vars: &Vec<(String, String)>) -> (r: Result<MailTransport, ConfigError>)
    ensures
        ({
            let t = env_or(vars@, "MAIL_TRANSPORT"@, "console"@);
            match r {
                Ok(m) => transport_chosen(vars@, m),
                Err(ConfigError::SmtpHostMissing) => t == "smtp"@ && env_get(vars@, "SMTP_HOST"@)
                    is None,
                Err(ConfigError::SmtpPortInvalid) => t == "smtp"@ && env_get(vars@, "SMTP_HOST"@)
                    is Some && parse_in_range(
                    env_or(vars@, "SMTP_PORT"@, "587"@),
                    false,
                    0,
                    u16::MAX as int,
                ) is None,
                Err(ConfigError::MailTransportUnknown(v)) => v@ == t && t != "console"@ && t
                    != "smtp"@,
                Err(_) => false,
            }
        }),
{
    let t = match var(vars, "MAIL_TRANSPORT") {
        Some(t) => t,
        None => String::from_str("console"),
    };
    if str_eq(t.as_str(), "console") {
        Ok(MailTransport::Console)
    } else if str_eq(t.as_str(), "smtp") {
        let host = match var(vars, "SMTP_HOST") {
            Some(h) => h,
            None => return Err(ConfigError::SmtpHostMissing),
        };
        let port_text = match var(vars, "SMTP_PORT") {
            Some(p) => p,
            None => String::from_str("587"),
        };
        let port = match parse_u16(port_text.as_str()) {
            Some(p) => p,
            None => return Err(ConfigError::SmtpPortInvalid),
        };
        let user = match var(vars, "SMTP_USER") {
            Some(u) => u,
            None => String::new(),
        };
        let pass = match var(vars, "SMTP_PASS") {
            Some(p) => p,
            None => String::new(),
        };
        Ok(MailTransport::Smtp { host, port, user, pass })
    } else {
        Err(ConfigError::MailTransportUnknown(t))
    }
}

/// Build the configuration from named variables and whether the bind address
/// ([`site_addr_text`]) parses as a `host:port` socket address, which the
/// server checks with `std::net` before anything else: an address that does
/// not parse is refused first. The database URL and a non-blank app secret are
/// required; the public base URL loses trailing
/// slashes and makes cookies `Secure` when it is https; automated screening is
/// configured only when a non-blank API key is present.
pub fn config_from(vars: &Vec<(String, String)>, site_addr_ok: bool) -> (r: Result<
    ConfigValues,
    ConfigError,
>)
    ensures
        match r {
            Err(e) => config_error_spec(vars@, site_addr_ok) == Some(error_kind(e)),
            Ok(c) => {
                &&& config_error_spec(vars@, site_addr_ok) is None
                &&& c.site_addr@ == site_addr_spec(vars@)
                &&& transport_chosen(vars@, c.mail_transport)
                &&& match c.static_dir {
                    Some(d) => env_get(vars@, "STATIC_DIR"@) == Some(d@),
                    None => env_get(vars@, "STATIC_DIR"@) is None,
                }
                &&& env_get(vars@, "DATABASE_URL"@) == Some(c.database_url@)
                &&& env_get(vars@, "APP_SECRET"@) == Some(c.app_secret@)
                &&& c.uses_dev_secret == (c.app_secret@ == "dev-only-change-me"@)
                &&& c.base_url@ == trim_end_char(
                    env_or(vars@, "PUBLIC_BASE_URL"@, "http://127.0.0.1:3000"@),
                    '/',
                )
                &&& c.cookie_secure == has_prefix(c.base_url@, "https://"@)
                &&& c.mail_from@ == env_or(vars@, "MAIL_FROM"@, "noreply@localhost"@)
                &&& c.asset_dir@ == match env_get(vars@, "ASSET_DIR"@) {
                    Some(d) => if trim(d).len() > 0 {
                        d
                    } else {
                        "./data/assets"@
                    },
                    None => "./data/assets"@,
                }
                &&& match c.review {
                    Some(rc) => {
                        &&& env_get(vars@, "DEEPSEEK_API_KEY"@) == Some(rc.api_key@)
                        &&& trim(rc.api_key@).len() > 0
                        &&& rc.model@ == env_or(vars@, "DEEPSEEK_MODEL"@, "deepseek-chat"@)
                        &&& rc.base_url@ == trim_end_char(
                            env_or(vars@, "DEEPSEEK_BASE_URL"@, "https://api.deepseek.com"@),
                            '/',
                        )
                    },
                    None => match env_get(vars@, "DEEPSEEK_API_KEY"@) {
                        Some(k) => trim(k).len() == 0,
                        None => true,
                    },
                }
            },
        },
{
    if !site_addr_ok {
        return Err(ConfigError::SiteAddrInvalid);
    }
    let site_addr = site_addr_text(vars);
    let static_dir = var(vars, "STATIC_DIR");
    let database_url = match var(vars, "DATABASE_URL") {
        Some(s) => s,
        None => return Err(ConfigError::DatabaseUrlMissing),
    };
    let app_secret = match var(vars, "APP_SECRET") {
        Some(s) => s,
        None => return Err(ConfigError::AppSecretMissing),
    };
    if blank(app_secret.as_str()) {
        return Err(ConfigError::AppSecretEmpty);
    }
    let uses_dev_secret = str_eq(app_secret.as_str(), "dev-only-change-me");
    let raw_base = match var(vars, "PUBLIC_BASE_URL") {
        Some(s) => s,
        None => String::from_str("http://127.0.0.1:3000"),
    };
    let base_url = trim_trailing_slashes(raw_base.as_str());
    let cookie_secure = starts_with_https(base_url.as_str());
    let mail_transport = match mail_transport(vars) {
        Ok(t) => t,
        Err(e) => {
            proof {
                reveal_strlit("smtp");
                reveal_strlit("console");
                assert("smtp"@.len() != "console"@.len());
            }
            return Err(e);
        },
    };
    let mail_from = match var(vars, "MAIL_FROM") {
        Some(s) => s,
        None => String::from_str("noreply@localhost"),
    };
    let asset_dir = match var(vars, "ASSET_DIR") {
        Some(d) => if !blank(d.as_str()) {
            d
        } else {
            String::from_str("./data/assets")
        },
        None => String::from_str("./data/assets"),
    };
    let review = match var(vars, "DEEPSEEK_API_KEY") {
        Some(api_key) => if blank(api_key.as_str()) {
            None
        } else {
            let model = match var(vars, "DEEPSEEK_MODEL") {
                Some(m) => m,
                None => String::from_str("deepseek-chat"),
            };
            let raw = match var(vars, "DEEPSEEK_BASE_URL") {
                Some(u) => u,
                None => String::from_str("https://api.deepseek.com"),
            };
            let base = trim_trailing_slashes(raw.as_str());
            Some(ReviewConfig { api_key, model, base_url: base })
        },
        None => None,
    };
    Ok(ConfigValues {
        site_addr,
        static_dir,
        database_url,
        app_secret,
        uses_dev_secret,
        base_url,
        cookie_secure,
        mail_transport,
        mail_from,
        asset_dir,
        review,
    })
}

/// Whether a URL starts with `https://`.
fn starts_with_https(s: &str) -> (r: bool)
    ensures
        r == has_prefix(s@, "https://"@),
{
    let v = chars_of(s);
    let p: Vec<char> = vec!['h', 't', 't', 'p', 's', ':', '/', '/'];
    proof {
        reveal_strlit("https://");
    }
    assert(p@ =~= "https://"@);
    assert(v@.subrange(0, v.len() as int) =~= s@);
    crate::text::starts_within(&v, 0, v.len(), &p)
}

} // verus!
