//! The configuration of the service, made from the values of its
//! environment variables.

use vstd::prelude::*;
use vstd::string::*;

verus! {

/// The port that the service binds where the configured one is no port
/// number.
pub const DEFAULT_PORT: u16 = 8000;

/// Why an environment variable has no value to give.
#[derive(Debug, Clone, Copy, PartialEq, Eq)]
pub enum VarError {
    /// The variable is not set.
    NotPresent,
    /// The variable is set to something that is not Unicode.
    NotUnicode,
}

/// The configuration of the service.
#[derive(Debug, PartialEq, Eq)]
pub struct Config {
    pub database_url: String,
    pub service_address: String,
    pub service_port: u16,
}

/// Whether `c` is one of the ten decimal digits.
pub open spec fn is_digit(c: char) -> bool {
    '0' <= c <= '9'
}

/// The number that a string of decimal digits denotes.
pub open spec fn decimal(digits: Seq<char>) -> nat
    decreases digits.len(),
{
    if digits.len() == 0 {
        0
    } else {
        decimal(digits.drop_last()) * 10 + (digits.last() as nat - '0' as nat) as nat
    }
}

/// The text without the plus sign that may lead it.
pub open spec fn unsigned(text: Seq<char>) -> Seq<char> {
    if text.len() > 0 && text[0] == '+' {
        text.subrange(1, text.len() as int)
    } else {
        text
    }
}

/// The port number that `text` denotes: at least one decimal digit, after
/// at most one leading plus sign and with nothing else around, whose number
/// is at most 65535.
pub open spec fn port_number(text: Seq<char>) -> Option<u16> {
    let digits = unsigned(text);
    if digits.len() > 0 && (forall|i: int| 0 <= i < digits.len() ==> is_digit(#[trigger] digits[i]))
        && decimal(digits) <= u16::MAX {
        Some(decimal(digits) as u16)
    } else {
        None
    }
}

/// The configuration that the three variables give, or the error of the
/// first of them that has no value, in the order database address, service
/// address, service port. A port that is no port number is replaced by the
/// default.
pub open spec fn configured(
    database_url: Result<String, VarError>,
    service_address: Result<String, VarError>,
    service_port: Result<String, VarError>,
) -> Result<Config, VarError> {
    match (database_url, service_address, service_port) {
        (Err(e), _, _) => Err(e),
        (Ok(_), Err(e), _) => Err(e),
        (Ok(_), Ok(_), Err(e)) => Err(e),
        (Ok(url), Ok(address), Ok(port)) => Ok(
            Config {
                database_url: url,
                service_address: address,
                service_port: match port_number(port@) {
                    Some(number) => number,
                    None => DEFAULT_PORT,
                },
            },
        ),
    }
}

/// A string of digits denotes at least what any of its prefixes denotes.
proof fn decimal_grows(digits: Seq<char>, n: int)
    requires
        0 <= n <= digits.len(),
    ensures
        decimal(digits.subrange(0, n)) <= decimal(digits),
    decreases digits.len() - n,
{
    if n == digits.len() {
        assert(digits.subrange(0, n) =~= digits);
    } else {
        let longer = digits.subrange(0, n + 1);
        assert(longer.drop_last() =~= digits.subrange(0, n));
        decimal_grows(digits, n + 1);
    }
}

/// Reads a port number.
pub fn parse_port(text: &str) -> (port: Option<u16>)
    ensures
        port == port_number(text@),
{
    let len = text.unicode_len();
    let start: usize = if len > 0 && text.get_char(0) == '+' {
        1
    } else {
        0
    };
    let ghost digits = unsigned(text@);
    if start == len {
        return None;
    }
    let mut value: u32 = 0;
    let mut i: usize = start;
    while i < len
        invariant
            start <= i <= len,
            len == text@.len(),
            digits == text@.subrange(start as int, len as int),
            digits == unsigned(text@),
            forall|j: int| 0 <= j < i - start ==> is_digit(#[trigger] digits[j]),
            value == decimal(digits.subrange(0, i - start)),
            value <= u16::MAX,
        decreases len - i,
    {
        let c = text.get_char(i);
        assert(c == digits[i - start]);
        if !('0' <= c && c <= '9') {
            return None;
        }
        let digit: u32 = c as u32 - '0' as u32;
        let next: u32 = value * 10 + digit;
        proof {
            let longer = digits.subrange(0, i - start + 1);
            assert(longer.drop_last() =~= digits.subrange(0, i - start));
            assert(decimal(longer) == next);
            decimal_grows(digits, i - start + 1);
        }
        if next > 65535 {
            return None;
        }
        value = next;
        i += 1;
    }
    proof {
        assert(digits.subrange(0, len - start) =~= digits);
    }
    Some(value as u16)
}

impl Config {
    /// Makes the configuration from the values of the variables that hold
    /// the database address, the service address and the service port.
    pub fn from_env(
        database_url: Result<String, VarError>,
        service_address: Result<String, VarError>,
        service_port: Result<String, VarError>,
    ) -> (config: Result<Config, VarError>)
        ensures
            config == configured(database_url, service_address, service_port),
    {
        let database_url = match database_url {
            Ok(value) => value,
            Err(e) => {
                return Err(e);
            },
        };
        let service_address = match service_address {
            Ok(value) => value,
            Err(e) => {
                return Err(e);
            },
        };
        let service_port = match service_port {
            Ok(value) => value,
            Err(e) => {
                return Err(e);
            },
        };
        let service_port = match parse_port(service_port.as_str()) {
            Some(number) => number,
            None => DEFAULT_PORT,
        };
        Ok(Config { database_url, service_address, service_port })
    }
}

} // verus!
