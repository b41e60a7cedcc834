//! The settings of a running service.

use vstd::prelude::*;
use vstd::string::StringExecFns;

verus! {

/// The settings of a running service.
#[derive(Debug)]
pub struct Config {
    pub database_url: String,
    pub database_url_pg: String,
    pub jwt_secret: String,
    pub server_host: String,
    pub server_port: u16,
}

/// The value of a decimal digit.
pub open spec fn digit_value(c: char) -> Option<int> {
    if '0' <= c <= '9' {
        Some(c as int - '0' as int)
    } else {
        None
    }
}

/// The number that a text of one or more decimal digits stands for.
pub open spec fn decimal_value(digits: Seq<char>) -> Option<int>
    decreases digits.len(),
{
    if digits.len() == 0 {
        None
    } else if digits.len() == 1 {
        digit_value(digits[0])
    } else {
        match (decimal_value(digits.drop_last()), digit_value(digits.last())) {
            (Some(front), Some(last)) => Some(10 * front + last),
            _ => None,
        }
    }
}

/// The port that a text stands for: decimal digits, with or without a `+`
/// before them, that make a number of 16 bits.
pub open spec fn spec_parse_port(text: Seq<char>) -> Option<u16> {
    let digits = if text.len() > 0 && text[0] == '+' {
        text.drop_first()
    } else {
        text
    };
    match decimal_value(digits) {
        Some(value) => if value <= u16::MAX {
            Some(value as u16)
        } else {
            None
        },
        None => None,
    }
}

/// The host that the service binds to where none is set.
pub open spec fn default_host() -> Seq<char> {
    "127.0.0.1"@
}

/// The text of the port that the service binds to where none is set.
pub open spec fn default_port() -> Seq<char> {
    "8080"@
}

/// The host of a configuration: the one that is set, or the default.
pub open spec fn host_or_default(server_host: Option<String>) -> Seq<char> {
    match server_host {
        Some(host) => host@,
        None => default_host(),
    }
}

/// The port of a configuration: the number that the text that is set, or
/// the default text, stands for.
pub open spec fn port_or_default(server_port: Option<String>) -> Option<u16> {
    match server_port {
        Some(port) => spec_parse_port(port@),
        None => spec_parse_port(default_port()),
    }
}

impl Clone for Config {
    fn clone(&self) -> (r: Self)
        ensures
            r == *self,
    {
        Config {
            database_url: self.database_url.clone(),
            database_url_pg: self.database_url_pg.clone(),
            jwt_secret: self.jwt_secret.clone(),
            server_host: self.server_host.clone(),
            server_port: self.server_port,
        }
    }
}

impl Config {
    /// The configuration made of the values of the environment: the three
    /// that must be set, and host and port, which default to `127.0.0.1`
    /// and `8080`. There is none where the port is no number.
    pub fn from_vars(
        database_url: String,
        database_url_pg: String,
        jwt_secret: String,
        server_host: Option<String>,
        server_port: Option<String>,
    ) -> (r: Option<Config>)
        ensures
            match port_or_default(server_port) {
                Some(port) => r matches Some(config) && config.database_url == database_url
                    && config.database_url_pg == database_url_pg && config.jwt_secret
                    == jwt_secret && config.server_host@ == host_or_default(server_host)
                    && config.server_port == port,
                None => r is None,
            },
    {
        let server_host = match server_host {
            Some(host) => host,
            None => String::from_str("127.0.0.1"),
        };
        let port_text = match server_port {
            Some(port) => port,
            None => String::from_str("8080"),
        };
        match parse_port(port_text.as_str()) {
            Some(server_port) => Some(
                Config { database_url, database_url_pg, jwt_secret, server_host, server_port },
            ),
            None => None,
        }
    }
}

/// A number that is too large stays too large, or stops being a number,
/// whatever follows it.
pub proof fn lemma_decimal_value_grows(digits: Seq<char>, k: int)
    requires
        1 <= k <= digits.len(),
        decimal_value(digits.take(k)) matches Some(value) && value > u16::MAX,
    ensures
        decimal_value(digits) matches Some(value) ==> value > u16::MAX,
    decreases digits.len() - k,
{
    if k < digits.len() {
        let front = digits.drop_last();
        assert(front.take(k) =~= digits.take(k));
        lemma_decimal_value_grows(front, k);
    } else {
        assert(digits.take(k) =~= digits);
    }
}

/// Reads a port: decimal digits, with or without a `+` before them.
pub fn parse_port(text: &str) -> (r: Option<u16>)
    ensures
        r == spec_parse_port(text@),
{
    let len: usize = text.unicode_len();
    let start: usize = if len > 0 && text.get_char(0) == '+' {
        1
    } else {
        0
    };
    if start == len {
        return None;
    }
    let ghost digits = text@.skip(start as int);
    proof {
        if start == 1 {
            assert(text@.drop_first() =~= digits);
        } else {
            assert(text@ =~= digits);
        }
    }
    let mut value: u32 = 0;
    let mut i: usize = start;
    while i < len
        invariant
            start <= i <= len,
            start < len,
            len == text@.len(),
            digits == text@.skip(start as int),
            spec_parse_port(text@) == (match decimal_value(digits) {
                Some(all) => if all <= u16::MAX {
                    Some(all as u16)
                } else {
                    None
                },
                None => None,
            }),
            value <= u16::MAX,
            i > start ==> decimal_value(digits.take(i - start)) == Some(value as int),
            i == start ==> value == 0,
        decreases len - i,
    {
        let c = text.get_char(i);
        let ghost seen = digits.take(i + 1 - start);
        proof {
            assert(seen.last() == c);
            assert(seen.drop_last() =~= digits.take(i - start));
        }
        if c < '0' || c > '9' {
            proof {
                lemma_bad_digit(digits, i - start);
            }
            return None;
        }
        let digit: u32 = c as u32 - '0' as u32;
        value = 10 * value + digit;
        proof {
            assert(digit_value(c) == Some(digit as int));
            assert(decimal_value(seen) == Some(value as int));
        }
        if value > 65535 {
            proof {
                lemma_decimal_value_grows(digits, i + 1 - start);
            }
            return None;
        }
        i += 1;
    }
    proof {
        assert(digits.take(len - start) =~= digits);
    }
    Some(value as u16)
}

/// A text with something else than a digit in it stands for no number.
pub proof fn lemma_bad_digit(digits: Seq<char>, k: int)
    requires
        0 <= k < digits.len(),
        digit_value(digits[k]) is None,
    ensures
        decimal_value(digits) is None,
    decreases digits.len(),
{
    if digits.len() > 1 {
        if k < digits.len() - 1 {
            let front = digits.drop_last();
            assert(front[k] == digits[k]);
            lemma_bad_digit(front, k);
        }
    }
}

} // verus!
