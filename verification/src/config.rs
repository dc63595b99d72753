//! The service's settings, resolved from the values its environment gives.

use crate::text::{decimal, push_decimal};
use vstd::prelude::*;
use vstd::string::StringExecFns;
use vstd::utf8::encode_utf8;

verus! {

/// The port the service listens on unless it is told another.
pub const DEFAULT_PORT: u16 = 8080;

/// Where the store is and where the service listens.
#[derive(Debug)]
pub struct Config {
    pub database_url: String,
    pub host: String,
    pub port: u16,
}

/// The byte is an ASCII digit.
pub open spec fn is_digit(byte: u8) -> bool {
    48 <= byte <= 57
}

/// The number that the ASCII digits `digits` write in decimal.
pub open spec fn digits_value(digits: Seq<u8>) -> nat
    decreases digits.len(),
{
    if digits.len() == 0 {
        0
    } else {
        digits_value(digits.drop_last()) * 10 + (digits.last() - 48) as nat
    }
}

/// The digits of a port's text: the text without the `+` it may start with.
pub open spec fn port_digits(bytes: Seq<u8>) -> Seq<u8> {
    if bytes.len() > 0 && bytes[0] == 43 {
        bytes.skip(1)
    } else {
        bytes
    }
}

/// The port that `text` writes: one or more digits, after at most one `+`,
/// that stand for a number up to 65535. Any other text writes no port.
pub open spec fn parsed_port(text: Seq<char>) -> Option<u16> {
    let digits = port_digits(encode_utf8(text));
    if digits.len() > 0 && (forall|i: int| 0 <= i < digits.len() ==> is_digit(#[trigger] digits[i]))
        && digits_value(digits) <= u16::MAX {
        Some(digits_value(digits) as u16)
    } else {
        None
    }
}

/// The port to listen on: the one `text` writes, or the default where there
/// is no text or it writes none.
pub open spec fn resolved_port(text: Option<String>) -> u16 {
    match text {
        Some(t) => match parsed_port(t@) {
            Some(port) => port,
            None => DEFAULT_PORT,
        },
        None => DEFAULT_PORT,
    }
}

/// A digit more never makes the number smaller.
proof fn lemma_digits_value_grows(digits: Seq<u8>, k: int)
    requires
        0 <= k <= digits.len(),
        forall|i: int| 0 <= i < digits.len() ==> is_digit(#[trigger] digits[i]),
    ensures
        digits_value(digits.take(k)) <= digits_value(digits),
    decreases digits.len() - k,
{
    if k < digits.len() {
        lemma_digits_value_grows(digits, k + 1);
        assert(digits.take(k + 1).drop_last() =~= digits.take(k));
        assert(digits.take(k + 1).last() == digits[k]);
    } else {
        assert(digits.take(k) =~= digits);
    }
}

/// The port that `text` writes, if it writes one.
pub fn parse_port(text: &str) -> (port: Option<u16>)
    ensures
        port == parsed_port(text@),
{
    let bytes = text.as_bytes();
    let start: usize = if bytes.len() > 0 && bytes[0] == 43 {
        1
    } else {
        0
    };
    let ghost digits = port_digits(bytes@);
    assert(digits =~= bytes@.skip(start as int));
    if start == bytes.len() {
        return None;
    }
    let mut value: u32 = 0;
    let mut i: usize = start;
    while i < bytes.len()
        invariant
            start <= i <= bytes@.len(),
            digits == bytes@.skip(start as int),
            forall|k: int| 0 <= k < i - start ==> is_digit(#[trigger] digits[k]),
            value <= u16::MAX,
            value == digits_value(digits.take(i - start)),
            bytes@ == encode_utf8(text@),
            digits == port_digits(encode_utf8(text@)),
        decreases bytes@.len() - i,
    {
        let byte = bytes[i];
        assert(digits[i - start] == byte);
        if byte < 48 || byte > 57 {
            return None;
        }
        let ghost before = digits.take(i - start);
        let ghost next = digits.take(i - start + 1);
        assert(next.drop_last() =~= before);
        assert(next.last() == byte);
        let widened: u32 = value * 10 + (byte - 48) as u32;
        if widened > 65535 {
            proof {
                if forall|k: int| 0 <= k < digits.len() ==> is_digit(#[trigger] digits[k]) {
                    lemma_digits_value_grows(digits, i - start + 1);
                }
            }
            return None;
        }
        value = widened;
        i = i + 1;
    }
    assert(digits.take(i - start) =~= digits);
    Some(value as u16)
}

impl Config {
    /// The text of the address to bind: the host, a colon, the port.
    pub open spec fn spec_bind_addr(self) -> Seq<char> {
        self.host@ + ":"@ + decimal(self.port as nat)
    }

    /// The settings that the given values resolve to. A value that is
    /// missing takes its default, and so does a port that does not parse.
    pub fn from_values(
        database_url: Option<String>,
        host: Option<String>,
        port: Option<String>,
    ) -> (config: Config)
        ensures
            config.database_url@ == (match database_url {
                Some(url) => url@,
                None => "sqlite:./portfolio.db"@,
            }),
            config.host@ == (match host {
                Some(h) => h@,
                None => "0.0.0.0"@,
            }),
            config.port == resolved_port(port),
    {
        let database_url = match database_url {
            Some(url) => url,
            None => String::from_str("sqlite:./portfolio.db"),
        };
        let host = match host {
            Some(h) => h,
            None => String::from_str("0.0.0.0"),
        };
        let port = match &port {
            Some(text) => match parse_port(text.as_str()) {
                Some(port) => port,
                None => DEFAULT_PORT,
            },
            None => DEFAULT_PORT,
        };
        Config { database_url, host, port }
    }

    /// The text of the address to bind.
    pub fn bind_addr(&self) -> (addr: String)
        ensures
            addr@ == self.spec_bind_addr(),
    {
        let mut addr = self.host.clone();
        addr.append(":");
        push_decimal(&mut addr, self.port as u64);
        addr
    }
}

} // verus!
