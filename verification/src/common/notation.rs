//! The notation of remote strings,
//! `[R:][[[local-host:]local-port:]remote-host:]remote-port[/protocol]`:
//! what a string denotes, how a rule is written out, and that writing and
//! reading agree.

use vstd::prelude::*;
use crate::common::addr::{
    ipv4_text, lemma_ipv4_roundtrip, lemma_ipv4_text_free, parse_ipv4, HostAddr,
};
use crate::common::remote::{ParseError, Protocol, RemoteView};
use crate::common::text::{
    bounded_decimal, decimal_text, first_index, free_of, is_digit, lemma_decimal_text,
    lemma_first_index, lemma_first_index_at, lemma_free_of_concat, lemma_split_fields_free_of_sep,
    lemma_split_fields_keep_free, lemma_split_joined, lemma_split_single, split,
};

verus! {

/// The host name that, with port 0, asks for a SOCKS5 frontend in place of a
/// fixed target.
pub open spec fn socks_word() -> Seq<char> {
    seq!['s', 'o', 'c', 'k', 's']
}

/// The remote host of a rule that names none.
pub open spec fn default_host_text() -> Seq<char> {
    ipv4_text(0, 0, 0, 0)
}

impl RemoteView {
    /// Whether the rule asks for a SOCKS5 frontend: host `socks`, port 0.
    pub open spec fn is_socks(self) -> bool {
        self.remote_host == socks_word() && self.remote_port == 0
    }

    /// Whether the notation of remote strings can express this rule: a
    /// version 4 local host, a remote host without `:` and `/`, and TCP where
    /// the rule asks for a SOCKS5 frontend.
    pub open spec fn expressible(self) -> bool {
        &&& self.local_host is V4
        &&& free_of(self.remote_host, ':')
        &&& free_of(self.remote_host, '/')
        &&& self.is_socks() ==> self.protocol == Protocol::Tcp
    }
}

/// The port that `s` denotes: an optional `+`, then at least one digit and
/// digits only, with a value of at most 65535.
pub open spec fn parse_port(s: Seq<char>) -> Option<u16> {
    let digits = if s.len() > 0 && s[0] == '+' {
        s.skip(1)
    } else {
        s
    };
    match bounded_decimal(digits, 65535) {
        Some(n) => Some(n as u16),
        None => None,
    }
}

/// The protocol that the word `t` names.
pub open spec fn parse_protocol(t: Seq<char>) -> Option<Protocol> {
    if t == seq!['t', 'c', 'p'] {
        Some(Protocol::Tcp)
    } else if t == seq!['u', 'd', 'p'] {
        Some(Protocol::Udp)
    } else {
        None
    }
}

/// The word that names `p` in a remote string.
pub open spec fn protocol_word(p: Protocol) -> Seq<char> {
    match p {
        Protocol::Tcp => seq!['t', 'c', 'p'],
        Protocol::Udp => seq!['u', 'd', 'p'],
    }
}

/// The protocol of the remote string `s`: what follows its first `/`, or TCP
/// where it has no `/`.
pub open spec fn protocol_of(s: Seq<char>) -> Option<Protocol> {
    let i = first_index(s, '/');
    if 0 <= i < s.len() {
        parse_protocol(s.skip(i + 1))
    } else {
        Some(Protocol::Tcp)
    }
}

/// The part of the remote string `s` before its first `/`.
pub open spec fn body_of(s: Seq<char>) -> Seq<char> {
    s.take(first_index(s, '/'))
}

/// Whether the body of a remote string starts with the mark of a reversed
/// rule, `R:`.
pub open spec fn has_reverse_mark(body: Seq<char>) -> bool {
    body.len() >= 2 && body[0] == 'R' && body[1] == ':'
}

/// The body of a remote string without the mark of a reversed rule.
pub open spec fn address_of(body: Seq<char>) -> Seq<char> {
    if has_reverse_mark(body) {
        body.skip(2)
    } else {
        body
    }
}

/// The two ends that the address fields of a remote string name.
pub struct AddressView {
    pub local_host: HostAddr,
    pub local_port: u16,
    pub remote_host: Seq<char>,
    pub remote_port: u16,
}

/// The ends named by one field: `socks`, or a port on the default host, with
/// the same port locally.
pub open spec fn parse_address_1(p: Seq<Seq<char>>) -> Result<AddressView, ParseError> {
    if p[0] == socks_word() {
        Ok(
            AddressView {
                local_host: HostAddr::V4(0, 0, 0, 0),
                local_port: 0,
                remote_host: socks_word(),
                remote_port: 0,
            },
        )
    } else {
        match parse_port(p[0]) {
            None => Err(ParseError::InvalidRemotePort),
            Some(port) => Ok(
                AddressView {
                    local_host: HostAddr::V4(0, 0, 0, 0),
                    local_port: port,
                    remote_host: default_host_text(),
                    remote_port: port,
                },
            ),
        }
    }
}

/// The ends named by two fields: a local port and `socks`, or a remote host
/// and port, with the same port locally.
pub open spec fn parse_address_2(p: Seq<Seq<char>>) -> Result<AddressView, ParseError> {
    if p[1] == socks_word() {
        match parse_port(p[0]) {
            None => Err(ParseError::InvalidLocalPort),
            Some(port) => Ok(
                AddressView {
                    local_host: HostAddr::V4(0, 0, 0, 0),
                    local_port: port,
                    remote_host: socks_word(),
                    remote_port: 0,
                },
            ),
        }
    } else {
        match parse_port(p[1]) {
            None => Err(ParseError::InvalidRemotePort),
            Some(port) => Ok(
                AddressView {
                    local_host: HostAddr::V4(0, 0, 0, 0),
                    local_port: port,
                    remote_host: p[0],
                    remote_port: port,
                },
            ),
        }
    }
}

/// The ends named by three fields: a local host, a local port and `socks`, or
/// a local port and a remote host and port.
pub open spec fn parse_address_3(p: Seq<Seq<char>>) -> Result<AddressView, ParseError> {
    if p[2] == socks_word() {
        match parse_ipv4(p[0]) {
            None => Err(ParseError::InvalidLocalHost),
            Some(host) => match parse_port(p[1]) {
                None => Err(ParseError::InvalidLocalPort),
                Some(port) => Ok(
                    AddressView {
                        local_host: host,
                        local_port: port,
                        remote_host: socks_word(),
                        remote_port: 0,
                    },
                ),
            },
        }
    } else {
        match parse_port(p[0]) {
            None => Err(ParseError::InvalidLocalPort),
            Some(local_port) => match parse_port(p[2]) {
                None => Err(ParseError::InvalidRemotePort),
                Some(remote_port) => Ok(
                    AddressView {
                        local_host: HostAddr::V4(0, 0, 0, 0),
                        local_port,
                        remote_host: p[1],
                        remote_port,
                    },
                ),
            },
        }
    }
}

/// The ends named by four fields: local host and port, remote host and port.
pub open spec fn parse_address_4(p: Seq<Seq<char>>) -> Result<AddressView, ParseError> {
    match parse_ipv4(p[0]) {
        None => Err(ParseError::InvalidLocalHost),
        Some(host) => match parse_port(p[1]) {
            None => Err(ParseError::InvalidLocalPort),
            Some(local_port) => match parse_port(p[3]) {
                None => Err(ParseError::InvalidRemotePort),
                Some(remote_port) => Ok(
                    AddressView {
                        local_host: host,
                        local_port,
                        remote_host: p[2],
                        remote_port,
                    },
                ),
            },
        }
    }
}

/// The ends that the fields `p` of an address name. Fields are read from the
/// left, and the first that cannot be read decides the error.
pub open spec fn parse_address(p: Seq<Seq<char>>) -> Result<AddressView, ParseError> {
    if p.len() == 1 {
        parse_address_1(p)
    } else if p.len() == 2 {
        parse_address_2(p)
    } else if p.len() == 3 {
        parse_address_3(p)
    } else if p.len() == 4 {
        parse_address_4(p)
    } else {
        Err(ParseError::UnexpectedParts)
    }
}

/// The rule that the remote string `s` denotes, or why it denotes none.
///
/// A remote string is `[R:][[[local-host:]local-port:]remote-host:]remote-port[/protocol]`,
/// where `socks` may stand in place of `remote-host:remote-port`. The
/// protocol is judged first, then the address fields from the left.
pub open spec fn parse_remote(s: Seq<char>) -> Result<RemoteView, ParseError> {
    match protocol_of(s) {
        None => Err(ParseError::InvalidProtocol),
        Some(protocol) => match parse_address(split(address_of(body_of(s)), ':')) {
            Err(e) => Err(e),
            Ok(a) => if a.remote_host == socks_word() && a.remote_port == 0 && protocol
                == Protocol::Udp {
                Err(ParseError::SocksOverUdp)
            } else {
                Ok(
                    RemoteView {
                        local_host: a.local_host,
                        local_port: a.local_port,
                        remote_host: a.remote_host,
                        remote_port: a.remote_port,
                        reversed: has_reverse_mark(body_of(s)),
                        protocol,
                    },
                )
            },
        },
    }
}

/// The text of a local host in a remote string: dotted quad for a version 4
/// address. A version 6 address has no text there.
pub open spec fn host_text(h: HostAddr) -> Seq<char> {
    match h {
        HostAddr::V4(a, b, c, d) => ipv4_text(a, b, c, d),
        HostAddr::V6(_) => Seq::empty(),
    }
}

/// The four address fields of `d`, with `:` between them.
pub open spec fn format_address(d: RemoteView) -> Seq<char> {
    host_text(d.local_host).push(':') + (decimal_text(d.local_port as nat).push(':') + (
    d.remote_host.push(':') + decimal_text(d.remote_port as nat)))
}

/// The mark of a reversed rule, or nothing.
pub open spec fn reverse_mark(reversed: bool) -> Seq<char> {
    if reversed {
        seq!['R', ':']
    } else {
        Seq::empty()
    }
}

/// The remote string of `d` with every field written out:
/// `[R:]local-host:local-port:remote-host:remote-port/protocol`.
pub open spec fn format_remote(d: RemoteView) -> Seq<char> {
    (reverse_mark(d.reversed) + format_address(d)).push('/') + protocol_word(d.protocol)
}

/// A port's shortest numeral reads back as that port.
pub proof fn lemma_port_roundtrip(port: u16)
    ensures
        parse_port(decimal_text(port as nat)) == Some(port),
        free_of(decimal_text(port as nat), ':'),
        free_of(decimal_text(port as nat), '/'),
{
    lemma_decimal_text(port as nat);
    let t = decimal_text(port as nat);
    assert(is_digit(t[0]));
}

/// The address fields of a written-out rule are the four that were written,
/// and none of them holds a `/`.
proof fn lemma_written_address(d: RemoteView)
    requires
        d.expressible(),
    ensures
        split(format_address(d), ':') == seq![
            host_text(d.local_host),
            decimal_text(d.local_port as nat),
            d.remote_host,
            decimal_text(d.remote_port as nat),
        ],
        free_of(format_address(d), '/'),
        format_address(d).len() > 0,
        is_digit(format_address(d)[0]),
{
    let ht = host_text(d.local_host);
    let lp = decimal_text(d.local_port as nat);
    let rh = d.remote_host;
    let rp = decimal_text(d.remote_port as nat);
    match d.local_host {
        HostAddr::V4(a, b, c, e) => {
            lemma_ipv4_text_free(a, b, c, e, ':');
            lemma_ipv4_text_free(a, b, c, e, '/');
        },
        HostAddr::V6(_) => {},
    }
    lemma_port_roundtrip(d.local_port);
    lemma_port_roundtrip(d.remote_port);
    lemma_split_single(rp, ':');
    lemma_split_joined(rh, ':', rp);
    lemma_split_joined(lp, ':', rh.push(':') + rp);
    lemma_split_joined(ht, ':', lp.push(':') + (rh.push(':') + rp));
    assert(split(format_address(d), ':') =~= seq![ht, lp, rh, rp]);
    lemma_free_of_concat(rh.push(':'), rp, '/');
    lemma_free_of_concat(lp.push(':'), rh.push(':') + rp, '/');
    lemma_free_of_concat(ht.push(':'), lp.push(':') + (rh.push(':') + rp), '/');
    assert(format_address(d)[0] == ht[0]);
}

/// The four fields of a written-out rule are read as the ends of the rule.
proof fn lemma_written_fields_read(d: RemoteView)
    requires
        d.expressible(),
    ensures
        parse_address(
            seq![
                host_text(d.local_host),
                decimal_text(d.local_port as nat),
                d.remote_host,
                decimal_text(d.remote_port as nat),
            ],
        ) == Ok::<AddressView, ParseError>(
            AddressView {
                local_host: d.local_host,
                local_port: d.local_port,
                remote_host: d.remote_host,
                remote_port: d.remote_port,
            },
        ),
{
    match d.local_host {
        HostAddr::V4(a, b, c, e) => {
            lemma_ipv4_roundtrip(a, b, c, e);
        },
        HostAddr::V6(_) => {},
    }
    lemma_port_roundtrip(d.local_port);
    lemma_port_roundtrip(d.remote_port);
}

/// The body of a written-out rule is what stands before its `/`, the protocol
/// what stands behind, and the mark of a reversed rule is there where the
/// rule is reversed.
proof fn lemma_written_parts(d: RemoteView)
    requires
        d.expressible(),
    ensures
        body_of(format_remote(d)) == reverse_mark(d.reversed) + format_address(d),
        protocol_of(format_remote(d)) == Some(d.protocol),
        has_reverse_mark(body_of(format_remote(d))) == d.reversed,
        address_of(body_of(format_remote(d))) == format_address(d),
{
    let mark = reverse_mark(d.reversed);
    let addr = format_address(d);
    let body = mark + addr;
    let pw = protocol_word(d.protocol);
    let s = format_remote(d);
    lemma_written_address(d);
    lemma_free_of_concat(mark, addr, '/');
    assert(s.take(body.len() as int) =~= body);
    lemma_first_index_at(s, '/', body.len() as int);
    assert(s.skip(body.len() as int + 1) =~= pw);
    if d.reversed {
        assert(body[0] == 'R' && body[1] == ':');
        assert(body.skip(2) =~= addr);
    } else {
        assert(body =~= addr);
    }
}

/// Every rule that remote strings can express is denoted by its own
/// written-out remote string.
pub proof fn lemma_format_then_parse(d: RemoteView)
    requires
        d.expressible(),
    ensures
        parse_remote(format_remote(d)) == Ok::<RemoteView, ParseError>(d),
{
    lemma_written_parts(d);
    lemma_written_address(d);
    lemma_written_fields_read(d);
}

/// What a remote string denotes, remote strings can express.
pub proof fn lemma_parsed_is_expressible(s: Seq<char>)
    requires
        parse_remote(s) is Ok,
    ensures
        parse_remote(s)->Ok_0.expressible(),
{
    let body = body_of(s);
    let addr = address_of(body);
    let p = split(addr, ':');
    lemma_first_index(s, '/');
    assert forall|j: int| 0 <= j < addr.len() implies #[trigger] addr[j] != '/' by {
        if has_reverse_mark(body) {
            assert(addr[j] == body[j + 2]);
        }
    }
    lemma_split_fields_free_of_sep(addr, ':');
    lemma_split_fields_keep_free(addr, ':', '/');
    lemma_ipv4_text_free(0, 0, 0, 0, ':');
    lemma_ipv4_text_free(0, 0, 0, 0, '/');
    let d = parse_remote(s)->Ok_0;
    if p.len() == 1 {
    } else if p.len() == 2 {
        assert(free_of(p[0], ':') && free_of(p[0], '/'));
    } else if p.len() == 3 {
        assert(free_of(p[1], ':') && free_of(p[1], '/'));
    } else if p.len() == 4 {
        assert(free_of(p[2], ':') && free_of(p[2], '/'));
    }
}

/// A remote string and the written-out remote string of what it denotes
/// denote the same rule.
pub proof fn lemma_parse_format_parse(s: Seq<char>)
    requires
        parse_remote(s) is Ok,
    ensures
        parse_remote(format_remote(parse_remote(s)->Ok_0)) == parse_remote(s),
{
    lemma_parsed_is_expressible(s);
    lemma_format_then_parse(parse_remote(s)->Ok_0);
}

} // verus!
