use vstd::prelude::*;
use crate::text::{chars_of, trimmed, trim, is_digit, is_digit_exec, digit_of};
use crate::total::grouped_value;
use crate::extract::opt_text;

verus! {

/// Credentials, read once at startup and passed to what needs them.
pub struct Secrets {
    google_vision_api_key: Option<String>,
}

/// A configured value counts only when it is not blank.
pub open spec fn present_value(v: Option<Seq<char>>) -> Option<Seq<char>> {
    match v {
        Some(s) => if trimmed(s).len() > 0 {
            Some(s)
        } else {
            None
        },
        None => None,
    }
}

impl Secrets {
    /// The cloud engine's key, if one is configured.
    pub closed spec fn api_key(&self) -> Option<Seq<char>> {
        opt_text(self.google_vision_api_key)
    }

    /// Secrets holding the given key; a blank key counts as none.
    pub fn new(google_vision_api_key: Option<String>) -> (r: Secrets)
        ensures
            r.api_key() == present_value(opt_text(google_vision_api_key)),
    {
        let key = match google_vision_api_key {
            Some(v) => {
                let t = trim(&chars_of(v.as_str()));
                if t.len() > 0 {
                    Some(v)
                } else {
                    None
                }
            },
            None => None,
        };
        Secrets { google_vision_api_key: key }
    }

    pub fn has_google_vision_api_key(&self) -> (r: bool)
        ensures
            r == self.api_key() is Some,
    {
        self.google_vision_api_key.is_some()
    }

    pub fn get_google_vision_api_key(&self) -> (r: Option<String>)
        ensures
            opt_text(r) == self.api_key(),
    {
        match &self.google_vision_api_key {
            Some(k) => Some(k.as_str().to_owned()),
            None => None,
        }
    }
}

pub struct ServerConfig {
    pub host: String,
    pub port: u16,
    pub cors_origin: String,
    pub upload_dir: String,
}

pub struct DatabaseConfig {
    pub url: String,
    pub max_connections: u32,
    pub timeout_secs: u64,
}

pub struct JwtConfig {
    pub secret: String,
    pub expiry_secs: u64,
}

pub struct Config {
    pub server: ServerConfig,
    pub database: DatabaseConfig,
    pub jwt: JwtConfig,
}

/// Claims of an access token: its subject, expiry and issue time.
pub struct Claims {
    pub sub: String,
    pub exp: usize,
    pub iat: usize,
}

/// What a client sends to register an uploaded bill.
pub struct CreateBillDto {
    pub file_name: String,
    pub file_type: String,
    pub file_size: i64,
    pub file_path: String,
}

/// Most digits that a configured number may have.
pub const SETTING_DIGITS_MAX: usize = 18;

/// The number that `s` spells in decimal digits, when it does and is at most `max`;
/// otherwise `default`.
pub open spec fn number_or(s: Option<Seq<char>>, default: nat, max: nat) -> nat {
    match s {
        Some(w) => if 0 < w.len() <= SETTING_DIGITS_MAX && (forall|i: int|
            0 <= i < w.len() ==> is_digit(#[trigger] w[i])) && grouped_value(w, 0, w.len() as int)
            <= max {
            grouped_value(w, 0, w.len() as int)
        } else {
            default
        },
        None => default,
    }
}

/// The decimal number that `s` spells, or `default` when it spells none up to `max`.
pub fn parse_number_or(s: &Option<String>, default: u64, max: u64) -> (r: u64)
    requires
        default <= max,
    ensures
        r == number_or(opt_text(*s), default as nat, max as nat),
        r <= max,
{
    match s {
        None => default,
        Some(text) => {
            let w = chars_of(text.as_str());
            if w.len() == 0 || w.len() > SETTING_DIGITS_MAX {
                return default;
            }
            let mut v: u64 = 0;
            let mut i: usize = 0;
            while i < w.len()
                invariant
                    opt_text(*s) == Some(w@),
                    default <= max,
                    0 < w@.len() <= SETTING_DIGITS_MAX,
                    i <= w@.len(),
                    forall|j: int| 0 <= j < i ==> is_digit(#[trigger] w@[j]),
                    v == grouped_value(w@, 0, i as int),
                    v <= max,
                decreases w@.len() - i,
            {
                if !is_digit_exec(w[i]) {
                    return default;
                }
                let d = digit_of(w[i]);
                if d > max || v > (max - d) / 10 {
                    proof {
                        assert(grouped_value(w@, 0, i as int + 1) == v * 10 + d);
                        if d <= max {
                            assert(v * 10 + d > max) by (nonlinear_arith)
                                requires v > (max - d) / 10, d <= max;
                        }
                        lemma_value_grows(w@, i as int + 1, w@.len() as int);
                    }
                    return default;
                }
                v = v * 10 + d;
                i = i + 1;
            }
            v
        },
    }
}

proof fn lemma_value_grows(w: Seq<char>, k: int, e: int)
    requires
        0 <= k <= e <= w.len(),
    ensures
        grouped_value(w, 0, k) <= grouped_value(w, 0, e),
    decreases e - k,
{
    if k < e {
        lemma_value_grows(w, k, e - 1);
    }
}

/// `s`, or `default` when it is absent.
fn text_or(s: Option<String>, default: &str) -> (r: String)
    ensures
        r@ == match s {
            Some(v) => v@,
            None => default@,
        },
{
    match s {
        Some(v) => v,
        None => default.to_owned(),
    }
}

impl Config {
    /// The configuration from the settings given, each absent one at its default: host
    /// `127.0.0.1`, port 8080, CORS origin `http://localhost:3000`, uploads in
    /// `./uploads`, 5 database connections, a 30 s timeout, tokens valid for a day.
    /// Numbers that do not parse take their default too.
    pub fn from_values(
        host: Option<String>,
        port: Option<String>,
        cors_origin: Option<String>,
        upload_dir: Option<String>,
        database_url: String,
        max_connections: Option<String>,
        timeout_secs: Option<String>,
        jwt_secret: String,
        jwt_expiry_secs: Option<String>,
    ) -> (r: Config)
        ensures
            r.server.port == number_or(opt_text(port), 8080, 65535),
            r.database.url@ == database_url@,
            r.database.max_connections == number_or(opt_text(max_connections), 5, 4294967295),
            r.database.timeout_secs == number_or(opt_text(timeout_secs), 30, 18446744073709551615),
            r.jwt.secret@ == jwt_secret@,
            r.jwt.expiry_secs == number_or(opt_text(jwt_expiry_secs), 86400, 18446744073709551615),
            r.server.host@ == match host {
                Some(h) => h@,
                None => "127.0.0.1"@,
            },
            r.server.cors_origin@ == match cors_origin {
                Some(c) => c@,
                None => "http://localhost:3000"@,
            },
            r.server.upload_dir@ == match upload_dir {
                Some(u) => u@,
                None => "./uploads"@,
            },
    {
        let port_number = parse_number_or(&port, 8080, 65535) as u16;
        let connections = parse_number_or(&max_connections, 5, 4294967295) as u32;
        let timeout = parse_number_or(&timeout_secs, 30, 18446744073709551615);
        let expiry = parse_number_or(&jwt_expiry_secs, 86400, 18446744073709551615);
        Config {
            server: ServerConfig {
                host: text_or(host, "127.0.0.1"),
                port: port_number,
                cors_origin: text_or(cors_origin, "http://localhost:3000"),
                upload_dir: text_or(upload_dir, "./uploads"),
            },
            database: DatabaseConfig { url: database_url, max_connections: connections, timeout_secs: timeout },
            jwt: JwtConfig { secret: jwt_secret, expiry_secs: expiry },
        }
    }
}

} // verus!
