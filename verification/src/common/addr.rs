//! Internet addresses as plain values, and the dotted-quad notation.

use vstd::prelude::*;
use crate::common::text::{
    all_digits, decimal_text, decimal_value, free_of, is_digit, lemma_decimal_text,
    lemma_split_joined, lemma_split_single, push_decimal, read_decimal, split, split_ranges,
    to_chars,
};
use vstd::string::StringExecFns;

verus! {

/// An internet address: the four octets of a version 4 address, or the 128
/// bits of a version 6 address, most significant first.
#[derive(Clone, Copy, Debug, PartialEq, Eq, Hash, Structural)]
pub enum HostAddr {
    V4(u8, u8, u8, u8),
    V6(u128),
}

/// What `s` denotes as one octet of a dotted quad: one to three digits, no
/// leading zero before another digit, and a value of at most 255.
pub open spec fn parse_octet(s: Seq<char>) -> Option<u8> {
    if 1 <= s.len() <= 3 && all_digits(s) && (s.len() == 1 || s[0] != '0') && decimal_value(s)
        <= 255 {
        Some(decimal_value(s) as u8)
    } else {
        None
    }
}

/// The dotted-quad notation of a version 4 address.
pub open spec fn ipv4_text(a: u8, b: u8, c: u8, d: u8) -> Seq<char> {
    decimal_text(a as nat).push('.') + (decimal_text(b as nat).push('.') + (decimal_text(
        c as nat,
    ).push('.') + decimal_text(d as nat)))
}

/// The version 4 address that `s` denotes in dotted-quad notation, if any:
/// exactly four octets with a `.` between them.
pub open spec fn parse_ipv4(s: Seq<char>) -> Option<HostAddr> {
    let p = split(s, '.');
    if p.len() == 4 && parse_octet(p[0]) is Some && parse_octet(p[1]) is Some && parse_octet(
        p[2],
    ) is Some && parse_octet(p[3]) is Some {
        Some(
            HostAddr::V4(
                parse_octet(p[0])->0,
                parse_octet(p[1])->0,
                parse_octet(p[2])->0,
                parse_octet(p[3])->0,
            ),
        )
    } else {
        None
    }
}

/// A decimal numeral holds digits only, so none of the separators.
pub proof fn lemma_decimal_text_free(n: nat, sep: char)
    requires
        !is_digit(sep),
    ensures
        free_of(decimal_text(n), sep),
{
    lemma_decimal_text(n);
}

/// The numeral of an octet reads back as that octet.
pub proof fn lemma_octet_roundtrip(a: u8)
    ensures
        parse_octet(decimal_text(a as nat)) == Some(a),
{
    lemma_decimal_text(a as nat);
}

/// Dotted-quad notation reads back as the address it was written from.
pub proof fn lemma_ipv4_roundtrip(a: u8, b: u8, c: u8, d: u8)
    ensures
        parse_ipv4(ipv4_text(a, b, c, d)) == Some(HostAddr::V4(a, b, c, d)),
{
    let ta = decimal_text(a as nat);
    let tb = decimal_text(b as nat);
    let tc = decimal_text(c as nat);
    let td = decimal_text(d as nat);
    lemma_decimal_text_free(a as nat, '.');
    lemma_decimal_text_free(b as nat, '.');
    lemma_decimal_text_free(c as nat, '.');
    lemma_decimal_text_free(d as nat, '.');
    lemma_split_single(td, '.');
    lemma_split_joined(tc, '.', td);
    lemma_split_joined(tb, '.', tc.push('.') + td);
    lemma_split_joined(ta, '.', tb.push('.') + (tc.push('.') + td));
    assert(split(ipv4_text(a, b, c, d), '.') =~= seq![ta, tb, tc, td]);
    lemma_octet_roundtrip(a);
    lemma_octet_roundtrip(b);
    lemma_octet_roundtrip(c);
    lemma_octet_roundtrip(d);
}

/// Dotted-quad notation holds digits and `.` only.
pub proof fn lemma_ipv4_text_free(a: u8, b: u8, c: u8, d: u8, sep: char)
    requires
        !is_digit(sep),
        sep != '.',
    ensures
        free_of(ipv4_text(a, b, c, d), sep),
        ipv4_text(a, b, c, d).len() > 0,
        is_digit(ipv4_text(a, b, c, d)[0]),
{
    lemma_decimal_text(a as nat);
    lemma_decimal_text(b as nat);
    lemma_decimal_text(c as nat);
    lemma_decimal_text(d as nat);
}

/// Reads `v[lo..hi]` as one octet of a dotted quad.
fn read_octet(v: &Vec<char>, lo: usize, hi: usize) -> (r: Option<u8>)
    requires
        lo <= hi <= v.len(),
    ensures
        r == parse_octet(v@.subrange(lo as int, hi as int)),
{
    if hi - lo < 1 || hi - lo > 3 {
        return None;
    }
    if hi - lo > 1 && v[lo] == '0' {
        assert(v@.subrange(lo as int, hi as int)[0] == '0');
        return None;
    }
    assert(v@.subrange(lo as int, hi as int)[0] == v@[lo as int]);
    match read_decimal(v, lo, hi, 255) {
        Some(n) => Some(n as u8),
        None => None,
    }
}

impl HostAddr {
    /// The version 4 address `0.0.0.0`, which stands for every local interface.
    pub fn unspecified() -> (r: HostAddr)
        ensures
            r == HostAddr::V4(0, 0, 0, 0),
    {
        HostAddr::V4(0, 0, 0, 0)
    }

    /// Reads `v[lo..hi]` as a version 4 address in dotted-quad notation.
    pub(crate) fn read_v4(v: &Vec<char>, lo: usize, hi: usize) -> (r: Option<HostAddr>)
        requires
            lo <= hi <= v.len(),
        ensures
            r == parse_ipv4(v@.subrange(lo as int, hi as int)),
    {
        let parts = split_ranges(v, lo, hi, '.');
        if parts.len() != 4 {
            return None;
        }
        let a = read_octet(v, parts[0].0, parts[0].1);
        let b = read_octet(v, parts[1].0, parts[1].1);
        let c = read_octet(v, parts[2].0, parts[2].1);
        let d = read_octet(v, parts[3].0, parts[3].1);
        match (a, b, c, d) {
            (Some(a), Some(b), Some(c), Some(d)) => Some(HostAddr::V4(a, b, c, d)),
            _ => None,
        }
    }

    /// Reads `text` as a version 4 address in dotted-quad notation: four
    /// decimal octets with a `.` between them, none with a leading zero.
    pub fn parse_v4(text: &str) -> (r: Option<HostAddr>)
        ensures
            r == parse_ipv4(text@),
    {
        let v = to_chars(text);
        assert(v@.subrange(0, v@.len() as int) == v@);
        HostAddr::read_v4(&v, 0, v.len())
    }
}

/// Appends the dotted-quad notation of `a.b.c.d` to `out`.
pub fn push_ipv4(out: &mut String, a: u8, b: u8, c: u8, d: u8)
    ensures
        final(out)@ == old(out)@ + ipv4_text(a, b, c, d),
{
    proof {
        reveal_strlit(".");
    }
    push_decimal(out, a as u32);
    out.append(".");
    push_decimal(out, b as u32);
    out.append(".");
    push_decimal(out, c as u32);
    out.append(".");
    push_decimal(out, d as u32);
    assert(out@ =~= old(out)@ + ipv4_text(a, b, c, d)) by {
        assert("."@ =~= seq!['.']);
    }
}

/// An address and a port on it: where a socket is bound or a datagram comes
/// from.
#[derive(Clone, Copy, Debug, PartialEq, Eq, Hash, Structural)]
pub struct SocketAddress {
    pub host: HostAddr,
    pub port: u16,
}

impl SocketAddress {
    /// The port `port` on `host`.
    pub fn new(host: HostAddr, port: u16) -> (r: SocketAddress)
        ensures
            r == (SocketAddress { host, port }),
    {
        SocketAddress { host, port }
    }

    /// Port 0 on `0.0.0.0`: a socket bound there gets a free port on every
    /// interface.
    pub fn ephemeral() -> (r: SocketAddress)
        ensures
            r == (SocketAddress { host: HostAddr::V4(0, 0, 0, 0), port: 0 }),
    {
        SocketAddress { host: HostAddr::V4(0, 0, 0, 0), port: 0 }
    }
}

} // verus!
