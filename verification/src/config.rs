//! Server configuration data.  Reading the environment is I/O and stays
//! outside the library; what is verified here is the data itself and the
//! parsing of the port value, which falls back to the default on any
//! malformed input.

use vstd::prelude::*;

use vstd::utf8::encode_utf8;

verus! {

/// The port used when none is configured or the configured one is
/// malformed.
pub const SERVER_PORT_DEFAULT: u16 = 8080;

/// Where the HTTP server binds, and which origins its CORS layer accepts.
#[derive(Clone, Debug, PartialEq)]
pub struct ServerConfig {
    /// Address to bind.
    pub server_addr: String,
    /// Port to bind.
    pub server_port: u16,
    /// Accepted CORS origins.
    pub cors_origins: Vec<String>,
}

/// Where the HTTP server binds, in the variant without a CORS layer.
#[derive(Clone, Debug, PartialEq)]
pub struct ServerArgs {
    /// Address to bind.
    pub server_addr: String,
    /// Port to bind.
    pub server_port: u16,
}

/// Whether every byte is a decimal digit, and there is at least one.
pub open spec fn spec_is_digits(s: Seq<u8>) -> bool {
    s.len() > 0 && forall|i: int| 0 <= i < s.len() ==> 48 <= #[trigger] s[i] <= 57
}

/// The number a string of decimal digits stands for.
pub open spec fn spec_digits_val(s: Seq<u8>) -> int
    decreases s.len(),
{
    if s.len() == 0 {
        0
    } else {
        spec_digits_val(s.drop_last()) * 10 + (s.last() - 48)
    }
}

/// What `u16::from_str_radix(s, 10)` accepts: an optional leading plus
/// sign, then one or more decimal digits, with a value that fits.
pub open spec fn spec_parse_u16(s: Seq<u8>) -> Option<u16> {
    let digits = if s.len() > 0 && s[0] == 43 {
        s.drop_first()
    } else {
        s
    };
    if spec_is_digits(digits) && spec_digits_val(digits) <= 65535 {
        Some(spec_digits_val(digits) as u16)
    } else {
        None
    }
}

/// A digit string's value is never negative.
proof fn lemma_digits_val_nonneg(s: Seq<u8>)
    requires
        forall|i: int| 0 <= i < s.len() ==> 48 <= #[trigger] s[i] <= 57,
    ensures
        spec_digits_val(s) >= 0,
    decreases s.len(),
{
    if s.len() > 0 {
        lemma_digits_val_nonneg(s.drop_last());
    }
}

/// Dropping trailing digits never increases the value.
proof fn lemma_digits_val_prefix(s: Seq<u8>, i: int)
    requires
        0 <= i <= s.len(),
        forall|j: int| 0 <= j < s.len() ==> 48 <= #[trigger] s[j] <= 57,
    ensures
        spec_digits_val(s.take(i)) <= spec_digits_val(s),
    decreases s.len() - i,
{
    if i < s.len() {
        lemma_digits_val_prefix(s, i + 1);
        let t = s.take(i + 1);
        assert(t.drop_last() =~= s.take(i));
        lemma_digits_val_nonneg(s.take(i));
    } else {
        assert(s.take(i) =~= s);
    }
}

/// Parse a decimal port number as `u16::from_str_radix` with radix ten
/// would: `None` on anything but an optionally plus-signed digit string
/// whose value fits.
pub fn parse_port(s: &[u8]) -> (r: Option<u16>)
    ensures
        r == spec_parse_u16(s@),
{
    let n = s.len();
    let start: usize = if n > 0 && s[0] == 43 {
        1
    } else {
        0
    };
    let ghost digits = if s@.len() > 0 && s@[0] == 43 {
        s@.drop_first()
    } else {
        s@
    };
    proof {
        assert(digits =~= s@.subrange(start as int, n as int));
    }
    if start == n {
        return None;
    }
    let mut v: u32 = 0;
    let mut i: usize = start;
    while i < n
        invariant
            start <= i <= n,
            n == s@.len(),
            start <= 1,
            digits == (if s@.len() > 0 && s@[0] == 43 {
                s@.drop_first()
            } else {
                s@
            }),
            digits =~= s@.subrange(start as int, n as int),
            forall|j: int| start <= j < i ==> 48 <= #[trigger] s@[j] <= 57,
            v <= 65535,
            v == spec_digits_val(s@.subrange(start as int, i as int)),
        decreases n - i,
    {
        let b = s[i];
        if b < 48 || b > 57 {
            proof {
                assert(digits[i - start] == s@[i as int]);
                assert(!spec_is_digits(digits));
            }
            return None;
        }
        let d = (b - 48) as u32;
        let w: u32 = v * 10 + d;
        proof {
            assert(s@.subrange(start as int, i as int + 1).drop_last() =~= s@.subrange(
                start as int,
                i as int,
            ));
        }
        if w > 65535 {
            proof {
                let done = s@.subrange(start as int, i as int + 1);
                if spec_is_digits(digits) {
                    assert(done =~= digits.take(i + 1 - start as int));
                    lemma_digits_val_prefix(digits, i + 1 - start as int);
                    assert(spec_digits_val(digits) > 65535);
                }
            }
            return None;
        }
        v = w;
        i = i + 1;
    }
    proof {
        assert(s@.subrange(start as int, n as int) =~= digits);
        assert(spec_is_digits(digits));
        assert(spec_digits_val(digits) == v);
    }
    Some(v as u16)
}

impl ServerArgs {
    /// Build the arguments from the raw environment values: a missing
    /// address falls back to localhost, a missing or malformed port to the
    /// default.
    pub fn from_env_values(addr: Option<String>, port: Option<String>) -> (r: ServerArgs)
        ensures
            addr matches Some(a) ==> r.server_addr@ == a@,
            addr is None ==> r.server_addr@ == "127.0.0.1"@,
            port matches Some(p) ==> r.server_port == (match spec_parse_u16(encode_utf8(p@)) {
                Some(v) => v,
                None => SERVER_PORT_DEFAULT,
            }),
            port is None ==> r.server_port == SERVER_PORT_DEFAULT,
    {
        let server_addr = match addr {
            Some(a) => a,
            None => "127.0.0.1".to_owned(),
        };
        let server_port = parse_port_value(&port);
        ServerArgs { server_addr, server_port }
    }
}

impl ServerConfig {
    /// Build the configuration from the raw environment values; the CORS
    /// origin list arrives already split by the caller, since reading and
    /// trimming the environment is its business.
    pub fn from_env_values(addr: Option<String>, port: Option<String>, cors_origins: Vec<String>)
        -> (r: ServerConfig)
        ensures
            addr matches Some(a) ==> r.server_addr@ == a@,
            addr is None ==> r.server_addr@ == "127.0.0.1"@,
            port matches Some(p) ==> r.server_port == (match spec_parse_u16(encode_utf8(p@)) {
                Some(v) => v,
                None => SERVER_PORT_DEFAULT,
            }),
            port is None ==> r.server_port == SERVER_PORT_DEFAULT,
            r.cors_origins == cors_origins,
    {
        let server_addr = match addr {
            Some(a) => a,
            None => "127.0.0.1".to_owned(),
        };
        let server_port = parse_port_value(&port);
        ServerConfig { server_addr, server_port, cors_origins }
    }
}

/// The port an optional environment value stands for, with the default
/// for a missing or malformed one.
fn parse_port_value(port: &Option<String>) -> (r: u16)
    ensures
        port matches Some(p) ==> r == (match spec_parse_u16(encode_utf8(p@)) {
            Some(v) => v,
            None => SERVER_PORT_DEFAULT,
        }),
        port is None ==> r == SERVER_PORT_DEFAULT,
{
    match port {
        Some(p) => {
            match parse_port(p.as_str().as_bytes()) {
                Some(v) => v,
                None => SERVER_PORT_DEFAULT,
            }
        },
        None => SERVER_PORT_DEFAULT,
    }
}

} // verus!
