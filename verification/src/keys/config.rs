//! Service configuration of the API-key service, from its settings.
use vstd::prelude::*;
use crate::text::{chars_of, str_eq};

verus! {

/// Deployment environment.
#[derive(Debug, Clone, PartialEq)]
pub enum Env {
    Development,
    Production,
}

/// Service configuration.
#[derive(Debug, Clone)]
pub struct Config {
    pub host: String,
    pub port: u16,
    pub database_path: String,
    pub jwt_secret: String,
    pub hmac_pepper: String,
    pub env: Env,
}

/// Why a configuration could not be formed.
#[derive(Debug, PartialEq)]
pub enum ConfigError {
    /// The port setting is not a port number.
    InvalidPort,
    /// The token signing secret is missing.
    MissingJwtSecret,
    /// The key-hashing pepper is missing.
    MissingHmacPepper,
}

impl ConfigError {
    /// The message reported for this error.
    pub fn message(&self) -> (m: &'static str)
        ensures
            m@ == match self {
                ConfigError::InvalidPort => "LARC_PORT must be a valid port number"@,
                ConfigError::MissingJwtSecret => "LARC_JWT_SECRET is required"@,
                ConfigError::MissingHmacPepper => "LARC_HMAC_PEPPER is required"@,
            },
    {
        match self {
            ConfigError::InvalidPort => "LARC_PORT must be a valid port number",
            ConfigError::MissingJwtSecret => "LARC_JWT_SECRET is required",
            ConfigError::MissingHmacPepper => "LARC_HMAC_PEPPER is required",
        }
    }
}

/// ASCII decimal digits.
pub open spec fn is_ascii_digit(c: char) -> bool {
    0x30 <= (c as u32) <= 0x39
}

/// The value of a sequence of decimal digits.
pub open spec fn digits_value(ds: Seq<char>) -> nat
    decreases ds.len(),
{
    if ds.len() == 0 {
        0
    } else {
        digits_value(ds.drop_last()) * 10 + ((ds.last() as u32) - 0x30) as nat
    }
}

/// The `u16` that `s` denotes in decimal (`str::parse::<u16>`): an optional
/// `+` followed by one or more ASCII digits, of value at most 65535.
pub open spec fn decimal_u16(s: Seq<char>) -> Option<u16> {
    let ds = if s.len() > 0 && s[0] == '+' { s.skip(1) } else { s };
    if ds.len() > 0 && all_digits(ds) && digits_value(ds) <= 65535 {
        Some(digits_value(ds) as u16)
    } else {
        None
    }
}

/// All characters of `ds` are ASCII digits.
pub open spec fn all_digits(ds: Seq<char>) -> bool {
    forall|i: int| 0 <= i < ds.len() ==> is_ascii_digit(#[trigger] ds[i])
}

/// A run of digits is worth at least any of its prefixes.
proof fn lemma_digits_value_prefix(ds: Seq<char>, k: int)
    requires
        all_digits(ds),
        0 <= k <= ds.len(),
    ensures
        digits_value(ds.take(k)) <= digits_value(ds),
    decreases ds.len() - k,
{
    if k < ds.len() {
        lemma_digits_value_prefix(ds, k + 1);
        assert(ds.take(k + 1).drop_last() =~= ds.take(k));
        assert(ds.take(k + 1).last() == ds[k]);
    } else {
        assert(ds.take(k) =~= ds);
    }
}

/// Parses a port number as `str::parse::<u16>` does: an optional `+`, then
/// one or more ASCII digits, of value at most 65535.
fn parse_u16(s: &str) -> (r: Option<u16>)
    ensures
        r == decimal_u16(s@),
{
    let v = chars_of(s);
    let n = v.len();
    let start: usize = if n > 0 && v[0] == '+' { 1 } else { 0 };
    let ghost ds = v@.skip(start as int);
    assert(ds =~= (if s@.len() > 0 && s@[0] == '+' { s@.skip(1) } else { s@ }));
    if start == n {
        return None;
    }
    let mut acc: u32 = 0;
    let mut k: usize = start;
    assert(ds.take(0) =~= Seq::<char>::empty());
    while k < n
        invariant
            n == v@.len(),
            start < n,
            start <= k <= n,
            ds == v@.skip(start as int),
            ds == (if s@.len() > 0 && s@[0] == '+' { s@.skip(1) } else { s@ }),
            all_digits(ds.take(k - start)),
            acc == digits_value(ds.take(k - start)),
            acc <= 65535,
        decreases n - k,
    {
        let c = v[k];
        assert(ds[k - start] == c);
        let u = c as u32;
        if u < 0x30 || u > 0x39 {
            assert(!is_ascii_digit(ds[k - start]));
            return None;
        }
        let next = acc * 10 + (u - 0x30);
        assert(ds.take(k - start + 1).drop_last() =~= ds.take(k - start));
        assert(ds.take(k - start + 1).last() == c);
        assert(all_digits(ds.take(k - start + 1))) by {
            assert forall|i: int| 0 <= i < k - start + 1 implies is_ascii_digit(#[trigger] ds.take(k - start + 1)[i]) by {
                if i < k - start {
                    assert(ds.take(k - start + 1)[i] == ds.take(k - start)[i]);
                }
            }
        }
        if next > 65535 {
            proof {
                if all_digits(ds) {
                    lemma_digits_value_prefix(ds, (k - start + 1) as int);
                }
            }
            return None;
        }
        acc = next;
        k += 1;
    }
    assert(ds.take(n - start) =~= ds);
    Some(acc as u16)
}

/// The port of a port setting; `"3800"` when unset.
pub open spec fn port_setting(port: Option<String>) -> Option<u16> {
    match port {
        Some(p) => decimal_u16(p@),
        None => decimal_u16("3800"@),
    }
}

/// The string of a setting, or a default when unset.
fn setting_or(value: Option<String>, default: &str) -> (r: String)
    ensures
        r@ == match value {
            Some(v) => v@,
            None => default@,
        },
{
    match value {
        Some(v) => v,
        None => default.to_owned(),
    }
}

impl Config {
    /// The configuration of the given settings (`None` for an unset one):
    /// host `"0.0.0.0"`, port `3800` and database `"./data/larc.db"` by
    /// default; the token secret and pepper are required; the environment is
    /// production exactly when set to `"production"`. The port is checked
    /// first, then the secret, then the pepper.
    pub fn from_settings(
        host: Option<String>,
        port: Option<String>,
        database_path: Option<String>,
        jwt_secret: Option<String>,
        hmac_pepper: Option<String>,
        env: Option<String>,
    ) -> (r: Result<Config, ConfigError>)
        ensures
            match (port_setting(port), jwt_secret, hmac_pepper) {
                (None, _, _) => r == Err::<Config, ConfigError>(ConfigError::InvalidPort),
                (Some(_), None, _) => r == Err::<Config, ConfigError>(ConfigError::MissingJwtSecret),
                (Some(_), Some(_), None) => r == Err::<Config, ConfigError>(ConfigError::MissingHmacPepper),
                (Some(p), Some(secret), Some(pepper)) => r matches Ok(c) && c.host@ == (match host {
                    Some(h) => h@,
                    None => "0.0.0.0"@,
                }) && c.port == p && c.database_path@ == (match database_path {
                    Some(d) => d@,
                    None => "./data/larc.db"@,
                }) && c.jwt_secret == secret && c.hmac_pepper == pepper && (c.env == Env::Production
                    <==> (env is Some && env->0@ == "production"@)),
            },
    {
        let host = setting_or(host, "0.0.0.0");
        let port_text = setting_or(port, "3800");
        let port = match parse_u16(port_text.as_str()) {
            Some(p) => p,
            None => return Err(ConfigError::InvalidPort),
        };
        let database_path = setting_or(database_path, "./data/larc.db");
        let jwt_secret = match jwt_secret {
            Some(s) => s,
            None => return Err(ConfigError::MissingJwtSecret),
        };
        let hmac_pepper = match hmac_pepper {
            Some(s) => s,
            None => return Err(ConfigError::MissingHmacPepper),
        };
        let env = match env {
            Some(e) => if str_eq(e.as_str(), "production") {
                Env::Production
            } else {
                Env::Development
            },
            None => Env::Development,
        };
        Ok(Config { host, port, database_path, jwt_secret, hmac_pepper, env })
    }
}

} // verus!
