//! Configuration loading: turning the raw environment values into an
//! immutable, validated configuration snapshot, or failing fast.

use vstd::prelude::*;

verus! {

/// Why configuration loading failed: a required value was absent, present but
/// empty, or (for the port) not a decimal number in `1..=65535`.
#[derive(Clone, Copy, Debug, PartialEq, Eq, Structural)]
pub enum ConfigError {
    MissingDbUrl,
    EmptyDbUrl,
    MissingServerHost,
    EmptyServerHost,
    MissingServerPort,
    InvalidServerPort,
}

/// The immutable configuration snapshot: where the backing store lives and
/// where the server should listen.
pub struct Config {
    db_url: String,
    server_host: String,
    server_port: u16,
}

pub open spec fn is_dec_digit(c: char) -> bool {
    '0' <= c && c <= '9'
}

pub open spec fn digit_value(c: char) -> int {
    (c as u32) - ('0' as u32)
}

pub open spec fn all_dec_digits(s: Seq<char>) -> bool {
    forall|i: int| 0 <= i < s.len() ==> is_dec_digit(#[trigger] s[i])
}

/// The number a sequence of decimal digits denotes (most significant first).
pub open spec fn dec_value(s: Seq<char>) -> int
    decreases s.len(),
{
    if s.len() == 0 {
        0
    } else {
        dec_value(s.drop_last()) * 10 + digit_value(s.last())
    }
}

/// Exactly the texts accepted as a server port: nonempty, all decimal
/// digits, denoting a number in `1..=65535`.
pub open spec fn valid_port_text(s: Seq<char>) -> bool {
    &&& s.len() > 0
    &&& all_dec_digits(s)
    &&& 1 <= dec_value(s) <= 65535
}

impl Config {
    /// Every loaded configuration satisfies this: no field is empty and the
    /// port is in the valid range.
    pub open spec fn well_formed(self) -> bool {
        &&& self.spec_db_url().len() > 0
        &&& self.spec_server_host().len() > 0
        &&& 1 <= self.spec_server_port()
    }

    pub closed spec fn spec_db_url(self) -> Seq<char> {
        self.db_url@
    }

    pub closed spec fn spec_server_host(self) -> Seq<char> {
        self.server_host@
    }

    pub closed spec fn spec_server_port(self) -> u16 {
        self.server_port
    }

    pub fn db_url(&self) -> (r: &String)
        ensures
            r@ == self.spec_db_url(),
    {
        &self.db_url
    }

    pub fn server_host(&self) -> (r: &String)
        ensures
            r@ == self.spec_server_host(),
    {
        &self.server_host
    }

    pub fn server_port(&self) -> (r: u16)
        ensures
            r == self.spec_server_port(),
    {
        self.server_port
    }
}

proof fn lemma_dec_value_nonneg(s: Seq<char>)
    requires
        all_dec_digits(s),
    ensures
        dec_value(s) >= 0,
    decreases s.len(),
{
    if s.len() > 0 {
        assert(all_dec_digits(s.drop_last()));
        lemma_dec_value_nonneg(s.drop_last());
    }
}

/// Extending a digit string on the right never decreases its value.
proof fn lemma_dec_value_take_le(s: Seq<char>, i: int)
    requires
        all_dec_digits(s),
        0 <= i <= s.len(),
    ensures
        dec_value(s.take(i)) <= dec_value(s),
    decreases s.len() - i,
{
    if i < s.len() {
        assert(all_dec_digits(s.take(i)));
        assert(s.take(i + 1).drop_last() =~= s.take(i));
        assert(s.take(i + 1).last() == s[i]);
        lemma_dec_value_nonneg(s.take(i));
        assert(dec_value(s.take(i + 1)) == dec_value(s.take(i)) * 10 + digit_value(s[i]));
        lemma_dec_value_take_le(s, i + 1);
    } else {
        assert(s.take(i) =~= s);
    }
}

/// Parses a server-port text. Returns the denoted number exactly when
/// `valid_port_text` holds of the input, and rejects every other input.
pub fn parse_port(s: &str) -> (r: Result<u16, ConfigError>)
    ensures
        match r {
            Ok(p) => valid_port_text(s@) && p == dec_value(s@) && 1 <= p <= 65535,
            Err(e) => !valid_port_text(s@) && e == ConfigError::InvalidServerPort,
        },
{
    let len = s.unicode_len();
    if len == 0 {
        return Err(ConfigError::InvalidServerPort);
    }
    let mut i: usize = 0;
    let mut acc: u32 = 0;
    while i < len
        invariant
            0 <= i <= len,
            len == s@.len(),
            all_dec_digits(s@.take(i as int)),
            acc == dec_value(s@.take(i as int)),
            acc <= 65535,
        decreases len - i,
    {
        let c = s.get_char(i);
        if !('0' <= c && c <= '9') {
            assert(!all_dec_digits(s@));
            return Err(ConfigError::InvalidServerPort);
        }
        let d: u32 = (c as u32) - ('0' as u32);
        assert(s@.take(i + 1).drop_last() =~= s@.take(i as int));
        assert(s@.take(i + 1).last() == s@[i as int]);
        acc = acc * 10 + d;
        i = i + 1;
        if acc > 65535 {
            proof {
                if all_dec_digits(s@) {
                    lemma_dec_value_take_le(s@, i as int);
                }
            }
            return Err(ConfigError::InvalidServerPort);
        }
    }
    assert(s@.take(len as int) =~= s@);
    if acc == 0 {
        return Err(ConfigError::InvalidServerPort);
    }
    Ok(acc as u16)
}

/// Loads the configuration snapshot from the raw environment values, checked
/// in a fixed order: database URL first, then bind host, then bind port.
/// Fails if and only if a value is absent, empty, or (for the port) not a
/// decimal number in `1..=65535`; on success the snapshot carries the three
/// values unchanged (the port as its denoted number).
pub fn load_config(
    db_url: Option<String>,
    server_host: Option<String>,
    server_port: Option<String>,
) -> (r: Result<Config, ConfigError>)
    ensures
        match r {
            Ok(c) => {
                &&& db_url is Some && db_url.unwrap()@.len() > 0
                &&& server_host is Some && server_host.unwrap()@.len() > 0
                &&& server_port is Some && valid_port_text(server_port.unwrap()@)
                &&& c.spec_db_url() == db_url.unwrap()@
                &&& c.spec_server_host() == server_host.unwrap()@
                &&& c.spec_server_port() == dec_value(server_port.unwrap()@)
                &&& c.well_formed()
            },
            Err(e) => match e {
                ConfigError::MissingDbUrl => db_url is None,
                ConfigError::EmptyDbUrl => db_url is Some && db_url.unwrap()@.len() == 0,
                ConfigError::MissingServerHost => {
                    &&& db_url is Some && db_url.unwrap()@.len() > 0
                    &&& server_host is None
                },
                ConfigError::EmptyServerHost => {
                    &&& db_url is Some && db_url.unwrap()@.len() > 0
                    &&& server_host is Some && server_host.unwrap()@.len() == 0
                },
                ConfigError::MissingServerPort => {
                    &&& db_url is Some && db_url.unwrap()@.len() > 0
                    &&& server_host is Some && server_host.unwrap()@.len() > 0
                    &&& server_port is None
                },
                ConfigError::InvalidServerPort => {
                    &&& db_url is Some && db_url.unwrap()@.len() > 0
                    &&& server_host is Some && server_host.unwrap()@.len() > 0
                    &&& server_port is Some && !valid_port_text(server_port.unwrap()@)
                },
            },
        },
{
    let url = match db_url {
        None => {
            return Err(ConfigError::MissingDbUrl);
        },
        Some(u) => u,
    };
    if url.as_str().unicode_len() == 0 {
        return Err(ConfigError::EmptyDbUrl);
    }
    let host = match server_host {
        None => {
            return Err(ConfigError::MissingServerHost);
        },
        Some(h) => h,
    };
    if host.as_str().unicode_len() == 0 {
        return Err(ConfigError::EmptyServerHost);
    }
    let port_text = match server_port {
        None => {
            return Err(ConfigError::MissingServerPort);
        },
        Some(p) => p,
    };
    let port = match parse_port(port_text.as_str()) {
        Err(e) => {
            return Err(e);
        },
        Ok(p) => p,
    };
    Ok(Config { db_url: url, server_host: host, server_port: port })
}

} // verus!
