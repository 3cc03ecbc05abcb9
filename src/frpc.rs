use crate::config::ConfigError;
use vstd::prelude::*;
use vstd::string::{StrSliceExecFns, StringExecFns};

verus! {

/// The properties the client is started with, as already-parsed values.
#[derive(Debug)]
pub struct FrpcProps {
    pub protocol: String,
    pub local_port: u16,
    pub remote_port: u16,
    pub remote_addr: String,
    pub token: String,
}

pub open spec fn is_digit(c: char) -> bool {
    '0' <= c && c <= '9'
}

/// The number that a string of decimal digits writes.
pub open spec fn digits_value(s: Seq<char>) -> int
    decreases s.len(),
{
    if s.len() == 0 {
        0
    } else {
        digits_value(s.drop_last()) * 10 + (s.last() as int - '0' as int)
    }
}

/// The digits of a number's text: what follows one leading '+', if any.
pub open spec fn unsigned_digits(s: Seq<char>) -> Seq<char> {
    if s.len() > 0 && s[0] == '+' {
        s.subrange(1, s.len() as int)
    } else {
        s
    }
}

/// A port written in decimal: one or more digits, at most 65535, after an
/// optional '+'.
pub open spec fn is_port_text(s: Seq<char>) -> bool {
    let d = unsigned_digits(s);
    &&& d.len() > 0
    &&& forall|i: int| 0 <= i < d.len() ==> is_digit(#[trigger] d[i])
    &&& digits_value(d) <= 65535
}

/// The port that `s` writes, or `None` when `s` writes none.
pub open spec fn port_of(s: Seq<char>) -> Option<u16> {
    if is_port_text(s) {
        Some(digits_value(unsigned_digits(s)) as u16)
    } else {
        None
    }
}

/// The properties are complete and both ports are numbers in range.
pub open spec fn props_complete(
    local_port: Option<String>,
    remote_port: Option<String>,
    remote_addr: Option<String>,
) -> bool {
    &&& local_port is Some && is_port_text(local_port->Some_0@)
    &&& remote_port is Some && is_port_text(remote_port->Some_0@)
    &&& remote_addr is Some
}

proof fn lemma_prefix_value_le(s: Seq<char>, i: int)
    requires
        0 <= i <= s.len(),
        forall|k: int| 0 <= k < s.len() ==> is_digit(#[trigger] s[k]),
    ensures
        digits_value(s.subrange(0, i)) <= digits_value(s),
    decreases s.len(),
{
    if i == s.len() {
        assert(s.subrange(0, i) =~= s);
    } else {
        let t = s.drop_last();
        assert(is_digit(s[s.len() - 1]));
        assert forall|k: int| 0 <= k < t.len() implies is_digit(#[trigger] t[k]) by {
            assert(t[k] == s[k]);
        }
        lemma_prefix_value_le(t, i);
        assert(t.subrange(0, i) =~= s.subrange(0, i));
        assert(digits_value(t) >= 0) by {
            lemma_digits_value_nonneg(t);
        }
    }
}

proof fn lemma_digits_value_nonneg(s: Seq<char>)
    requires
        forall|k: int| 0 <= k < s.len() ==> is_digit(#[trigger] s[k]),
    ensures
        digits_value(s) >= 0,
    decreases s.len(),
{
    if s.len() > 0 {
        let t = s.drop_last();
        assert(is_digit(s[s.len() - 1]));
        assert forall|k: int| 0 <= k < t.len() implies is_digit(#[trigger] t[k]) by {
            assert(t[k] == s[k]);
        }
        lemma_digits_value_nonneg(t);
    }
}

/// Reads a port number written in decimal digits, after an optional '+'.
pub fn parse_port(s: &str) -> (r: Option<u16>)
    ensures
        r == port_of(s@),
{
    let n = s.unicode_len();
    let start: usize = if n > 0 && s.get_char(0) == '+' {
        1
    } else {
        0
    };
    let ghost d = unsigned_digits(s@);
    assert(d =~= s@.subrange(start as int, n as int));
    if start == n {
        return None;
    }
    let mut acc: u32 = 0;
    let mut i: usize = start;
    while i < n
        invariant
            n == s@.len(),
            start <= i <= n,
            d == unsigned_digits(s@),
            d =~= s@.subrange(start as int, n as int),
            acc <= 65535,
            acc == digits_value(d.subrange(0, i - start)),
            forall|k: int| 0 <= k < i - start ==> is_digit(#[trigger] d[k]),
        decreases n - i,
    {
        let c = s.get_char(i);
        assert(d[i - start] == c);
        if !('0' <= c && c <= '9') {
            assert(!is_digit(d[i - start]));
            return None;
        }
        let dv: u32 = (c as u32) - ('0' as u32);
        let next: u32 = acc * 10 + dv;
        assert(d.subrange(0, i - start + 1).drop_last() =~= d.subrange(0, i - start));
        if next > 65535 {
            proof {
                if forall|k: int| 0 <= k < d.len() ==> is_digit(#[trigger] d[k]) {
                    lemma_prefix_value_le(d, i - start + 1);
                }
                assert(!is_port_text(s@));
            }
            return None;
        }
        acc = next;
        i = i + 1;
    }
    assert(d.subrange(0, n - start) =~= d);
    Some(acc as u16)
}

impl FrpcProps {
    pub fn new(
        protocol: String,
        local_port: u16,
        remote_port: u16,
        remote_addr: String,
        token: String,
    ) -> (r: Self)
        ensures
            r.protocol == protocol,
            r.local_port == local_port,
            r.remote_port == remote_port,
            r.remote_addr == remote_addr,
            r.token == token,
    {
        FrpcProps { protocol, local_port, remote_port, remote_addr, token }
    }

    /// Builds the properties from values as they were supplied, each absent
    /// or as text. `protocol` defaults to "tcp" and `token` to the empty
    /// string; the ports and the remote address are required, and a port must
    /// be a decimal number that fits in 16 bits. Anything else is
    /// `ConfigError::Invalid`.
    pub fn parse(
        protocol: Option<String>,
        local_port: Option<String>,
        remote_port: Option<String>,
        remote_addr: Option<String>,
        token: Option<String>,
    ) -> (r: Result<Self, ConfigError>)
        ensures
            props_complete(local_port, remote_port, remote_addr) <==> r is Ok,
            r matches Err(e) ==> e == ConfigError::Invalid,
            r matches Ok(p) ==> {
                &&& Some(p.local_port) == port_of(local_port->Some_0@)
                &&& Some(p.remote_port) == port_of(remote_port->Some_0@)
                &&& p.remote_addr == remote_addr->Some_0
                &&& p.protocol@ == (match protocol {
                    Some(s) => s@,
                    None => "tcp"@,
                })
                &&& p.token@ == (match token {
                    Some(s) => s@,
                    None => Seq::<char>::empty(),
                })
            },
    {
        let local_port = match local_port {
            Some(s) => parse_port(s.as_str()),
            None => None,
        };
        let remote_port = match remote_port {
            Some(s) => parse_port(s.as_str()),
            None => None,
        };
        match (local_port, remote_port, remote_addr) {
            (Some(lp), Some(rp), Some(addr)) => {
                let protocol = match protocol {
                    Some(s) => s,
                    None => String::from_str("tcp"),
                };
                let token = match token {
                    Some(s) => s,
                    None => String::new(),
                };
                Ok(FrpcProps::new(protocol, lp, rp, addr, token))
            },
            _ => Err(ConfigError::Invalid),
        }
    }
}

} // verus!
