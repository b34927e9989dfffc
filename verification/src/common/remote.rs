//! Remote descriptors: what a forwarding rule says, how one is read from the
//! notation in which a user writes it, and the messages that answer a
//! request.

use vstd::prelude::*;
use vstd::string::StrSliceExecFns;
use vstd::string::StringExecFns;
use crate::common::addr::{ipv4_text, parse_ipv4, push_ipv4, HostAddr, SocketAddress};
use crate::common::notation::{
    address_of, body_of, default_host_text, format_address, format_remote, has_reverse_mark,
    parse_address, parse_port, parse_protocol, parse_remote, protocol_word, reverse_mark,
    socks_word, AddressView,
};
use crate::common::text::{
    decimal_text, first_index, free_of, lemma_first_index, lemma_first_index_at, push_decimal,
    read_decimal, split, split_ranges, to_chars,
};

verus! {

/// Transport protocol of a forwarded flow.
#[derive(Clone, Copy, Debug, PartialEq, Eq, Structural)]
pub enum Protocol {
    Tcp,
    Udp,
}

impl Protocol {
    /// Whether flows of this protocol are byte streams.
    pub fn is_tcp(&self) -> (r: bool)
        ensures
            r == (*self == Protocol::Tcp),
    {
        match self {
            Protocol::Tcp => true,
            Protocol::Udp => false,
        }
    }

    /// The word that names this protocol in a remote string.
    pub fn word(&self) -> (r: &'static str)
        ensures
            r@ == protocol_word(*self),
    {
        proof {
            reveal_strlit("tcp");
            reveal_strlit("udp");
        }
        match self {
            Protocol::Tcp => {
                assert("tcp"@ =~= seq!['t', 'c', 'p']);
                "tcp"
            },
            Protocol::Udp => {
                assert("udp"@ =~= seq!['u', 'd', 'p']);
                "udp"
            },
        }
    }
}

/// One forwarding rule: where the listening side binds, where the dialing
/// side connects, which side listens, and over which protocol.
#[derive(Clone, Debug, PartialEq, Eq)]
pub struct RemoteRequest {
    pub local_host: HostAddr,
    pub local_port: u16,
    pub remote_host: String,
    pub remote_port: u16,
    pub reversed: bool,
    pub protocol: Protocol,
}

/// The mathematical content of a `RemoteRequest`.
pub struct RemoteView {
    pub local_host: HostAddr,
    pub local_port: u16,
    pub remote_host: Seq<char>,
    pub remote_port: u16,
    pub reversed: bool,
    pub protocol: Protocol,
}

impl View for RemoteRequest {
    type V = RemoteView;

    open spec fn view(&self) -> RemoteView {
        RemoteView {
            local_host: self.local_host,
            local_port: self.local_port,
            remote_host: self.remote_host@,
            remote_port: self.remote_port,
            reversed: self.reversed,
            protocol: self.protocol,
        }
    }
}

/// Why a remote string was refused.
#[derive(Clone, Copy, Debug, PartialEq, Eq, Structural)]
pub enum ParseError {
    /// What follows the `/` is neither `tcp` nor `udp`.
    InvalidProtocol,
    /// The remote port is no port number.
    InvalidRemotePort,
    /// The local port is no port number.
    InvalidLocalPort,
    /// The local host is no dotted quad.
    InvalidLocalHost,
    /// More than four fields between `:`.
    UnexpectedParts,
    /// A SOCKS5 frontend was asked for over UDP.
    SocksOverUdp,
}

/// What `ParseError::message` says of each error.
pub open spec fn parse_error_text(e: ParseError) -> Seq<char> {
    match e {
        ParseError::InvalidProtocol => "Invalid protocol: Must be 'tcp' or 'udp'"@,
        ParseError::InvalidRemotePort => "Invalid remote port"@,
        ParseError::InvalidLocalPort => "Invalid local port"@,
        ParseError::InvalidLocalHost => "Invalid local host"@,
        ParseError::UnexpectedParts => "Invalid format: Unexpected number of address parts"@,
        ParseError::SocksOverUdp => "Invalid protocol: 'socks' must be 'tcp'"@,
    }
}

impl ParseError {
    /// The error in words, for the user.
    pub fn message(&self) -> (r: String)
        ensures
            r@ == parse_error_text(*self),
    {
        match self {
            ParseError::InvalidProtocol => String::from_str(
                "Invalid protocol: Must be 'tcp' or 'udp'",
            ),
            ParseError::InvalidRemotePort => String::from_str("Invalid remote port"),
            ParseError::InvalidLocalPort => String::from_str("Invalid local port"),
            ParseError::InvalidLocalHost => String::from_str("Invalid local host"),
            ParseError::UnexpectedParts => String::from_str(
                "Invalid format: Unexpected number of address parts",
            ),
            ParseError::SocksOverUdp => String::from_str("Invalid protocol: 'socks' must be 'tcp'"),
        }
    }
}

/// The peer's answer to a request: accepted, or refused with a reason.
#[derive(Clone, Debug, PartialEq, Eq)]
pub enum RemoteResponse {
    RemoteOk,
    RemoteFailed(String),
}

/// The mathematical content of a `RemoteResponse`.
pub enum ResponseView {
    Accepted,
    Refused(Seq<char>),
}

impl View for RemoteResponse {
    type V = ResponseView;

    open spec fn view(&self) -> ResponseView {
        match self {
            RemoteResponse::RemoteOk => ResponseView::Accepted,
            RemoteResponse::RemoteFailed(reason) => ResponseView::Refused(reason@),
        }
    }
}

/// The characters of the start marker, `remote_start`.
pub open spec fn start_text() -> Seq<char> {
    seq!['r', 'e', 'm', 'o', 't', 'e', '_', 's', 't', 'a', 'r', 't']
}

/// The bytes of the start marker: the twelve ASCII codes of `remote_start`.
pub open spec fn start_marker() -> Seq<u8> {
    Seq::new(12, |i: int| start_text()[i] as u8)
}

/// The start marker: what the side that opened a stream writes once an
/// application has connected, right before the first byte of payload, so that
/// the peer dials its target only then.
#[derive(Clone, Copy, Debug, PartialEq, Eq, Structural)]
pub struct RemoteStart {}

impl RemoteStart {
    /// The number of bytes of the marker.
    pub const LEN: usize = 12;

    /// The marker.
    pub fn new() -> (r: RemoteStart) {
        RemoteStart {  }
    }

    /// The bytes to write: `remote_start` in ASCII.
    pub fn bytes(&self) -> (r: Vec<u8>)
        ensures
            r@ == start_marker(),
            r@.len() == RemoteStart::LEN,
    {
        broadcast use vstd::string::is_ascii_spec_bytes;

        proof {
            reveal_strlit("remote_start");
        }
        let text: &str = "remote_start";
        assert(text@ =~= start_text());
        assert(vstd::string::is_ascii(text)) by {
            assert forall|i: int| 0 <= i < text@.len() implies (text@[i] as u32) < 128 by {
                assert(text@ == start_text());
            }
        }
        let r = text.as_bytes_vec();
        assert(r@ =~= start_marker());
        r
    }

    /// Whether a chunk of `len` bytes that arrives where the marker is due
    /// starts the flow: any chunk that is not empty does, whatever it holds.
    pub fn accepts(len: usize) -> (r: bool)
        ensures
            r == (len > 0),
    {
        len > 0
    }
}

/// The fields that `ranges` cut out of `v`.
spec fn fields_of(v: Seq<char>, ranges: Seq<(usize, usize)>) -> Seq<Seq<char>> {
    Seq::new(ranges.len(), |k: int| v.subrange(ranges[k].0 as int, ranges[k].1 as int))
}

/// The position of the first `sep` in `v`, or `v.len()` if there is none.
fn find_first(v: &Vec<char>, sep: char) -> (r: usize)
    ensures
        r == first_index(v@, sep),
        r <= v.len(),
{
    let mut i: usize = 0;
    while i < v.len()
        invariant
            i <= v.len(),
            free_of(v@.take(i as int), sep),
        decreases v.len() - i,
    {
        if v[i] == sep {
            proof {
                lemma_first_index_at(v@, sep, i as int);
            }
            return i;
        }
        proof {
            assert forall|j: int| 0 <= j < i + 1 implies #[trigger] v@.take(i + 1)[j] != sep by {
                if j < i {
                    assert(v@.take(i as int)[j] == v@[j]);
                }
            }
        }
        i = i + 1;
    }
    proof {
        lemma_first_index_at(v@, sep, i as int);
    }
    i
}

/// Reads `v[lo..hi]` as a port number.
fn read_port(v: &Vec<char>, lo: usize, hi: usize) -> (r: Option<u16>)
    requires
        lo <= hi <= v.len(),
    ensures
        r == parse_port(v@.subrange(lo as int, hi as int)),
{
    let ghost s = v@.subrange(lo as int, hi as int);
    let from: usize = if lo < hi && v[lo] == '+' {
        lo + 1
    } else {
        lo
    };
    proof {
        if lo < hi {
            assert(s[0] == v@[lo as int]);
            assert(s.skip(1) == v@.subrange(lo + 1, hi as int));
        }
    }
    match read_decimal(v, from, hi, 65535) {
        Some(n) => Some(n as u16),
        None => None,
    }
}

/// Whether `v[lo..hi]` is the word `socks`.
fn is_socks_field(v: &Vec<char>, lo: usize, hi: usize) -> (r: bool)
    requires
        lo <= hi <= v.len(),
    ensures
        r == (v@.subrange(lo as int, hi as int) == socks_word()),
{
    let ghost s = v@.subrange(lo as int, hi as int);
    if hi - lo != 5 {
        assert(socks_word().len() == 5);
        return false;
    }
    let r: bool = v[lo] == 's' && v[lo + 1] == 'o' && v[lo + 2] == 'c' && v[lo + 3] == 'k' && v[lo
        + 4] == 's';
    proof {
        assert(s[0] == v@[lo as int] && s[1] == v@[lo + 1] && s[2] == v@[lo + 2] && s[3] == v@[lo
            + 3] && s[4] == v@[lo + 4]);
        if r {
            assert(s =~= socks_word());
        }
    }
    r
}

/// Reads `v[lo..hi]` as the name of a protocol.
fn read_protocol(v: &Vec<char>, lo: usize, hi: usize) -> (r: Option<Protocol>)
    requires
        lo <= hi <= v.len(),
    ensures
        r == parse_protocol(v@.subrange(lo as int, hi as int)),
{
    let ghost s = v@.subrange(lo as int, hi as int);
    if hi - lo != 3 {
        assert(seq!['t', 'c', 'p'].len() == 3 && seq!['u', 'd', 'p'].len() == 3);
        return None;
    }
    proof {
        assert(s[0] == v@[lo as int] && s[1] == v@[lo + 1] && s[2] == v@[lo + 2]);
    }
    if v[lo] == 't' && v[lo + 1] == 'c' && v[lo + 2] == 'p' {
        assert(s =~= seq!['t', 'c', 'p']);
        Some(Protocol::Tcp)
    } else if v[lo] == 'u' && v[lo + 1] == 'd' && v[lo + 2] == 'p' {
        assert(s =~= seq!['u', 'd', 'p']);
        Some(Protocol::Udp)
    } else {
        None
    }
}

/// The two ends that the address fields of a remote string name.
struct Address {
    local_host: HostAddr,
    local_port: u16,
    remote_host: String,
    remote_port: u16,
}

impl View for Address {
    type V = AddressView;

    closed spec fn view(&self) -> AddressView {
        AddressView {
            local_host: self.local_host,
            local_port: self.local_port,
            remote_host: self.remote_host@,
            remote_port: self.remote_port,
        }
    }
}

/// The word `socks` as a host name.
fn socks_host() -> (r: String)
    ensures
        r@ == socks_word(),
{
    proof {
        reveal_strlit("socks");
    }
    let r = String::from_str("socks");
    assert(r@ =~= socks_word());
    r
}

/// The host of a rule that names none, `0.0.0.0`.
fn default_host() -> (r: String)
    ensures
        r@ == default_host_text(),
{
    let mut r = String::new();
    push_ipv4(&mut r, 0, 0, 0, 0);
    assert(r@ =~= default_host_text());
    r
}

/// The text of `text` between the character positions of `range`.
fn field_text(text: &str, v: &Vec<char>, range: (usize, usize)) -> (r: String)
    requires
        v@ == text@,
        range.0 <= range.1 <= v.len(),
    ensures
        r@ == v@.subrange(range.0 as int, range.1 as int),
{
    String::from_str(text.substring_char(range.0, range.1))
}

/// Reads the address fields `f` of `text`, whose characters are `v`.
fn read_address(text: &str, v: &Vec<char>, f: &Vec<(usize, usize)>) -> (r: Result<
    Address,
    ParseError,
>)
    requires
        v@ == text@,
        forall|k: int| 0 <= k < f@.len() ==> (#[trigger] f@[k]).0 <= f@[k].1 <= v.len(),
    ensures
        match parse_address(fields_of(v@, f@)) {
            Ok(a) => r is Ok && r->Ok_0@ == a,
            Err(e) => r is Err && r->Err_0 == e,
        },
{
    let ghost p = fields_of(v@, f@);
    let any = HostAddr::unspecified();
    let count: usize = f.len();
    if count == 0 || count > 4 {
        return Err(ParseError::UnexpectedParts);
    }
    let last: (usize, usize) = f[count - 1];
    let socks: bool = count <= 3 && is_socks_field(v, last.0, last.1);
    if count == 1 {
        if socks {
            return Ok(
                Address {
                    local_host: any,
                    local_port: 0,
                    remote_host: socks_host(),
                    remote_port: 0,
                },
            );
        }
        match read_port(v, f[0].0, f[0].1) {
            None => Err(ParseError::InvalidRemotePort),
            Some(port) => Ok(
                Address {
                    local_host: any,
                    local_port: port,
                    remote_host: default_host(),
                    remote_port: port,
                },
            ),
        }
    } else if count == 2 {
        if socks {
            return match read_port(v, f[0].0, f[0].1) {
                None => Err(ParseError::InvalidLocalPort),
                Some(port) => Ok(
                    Address {
                        local_host: any,
                        local_port: port,
                        remote_host: socks_host(),
                        remote_port: 0,
                    },
                ),
            };
        }
        match read_port(v, f[1].0, f[1].1) {
            None => Err(ParseError::InvalidRemotePort),
            Some(port) => Ok(
                Address {
                    local_host: any,
                    local_port: port,
                    remote_host: field_text(text, v, f[0]),
                    remote_port: port,
                },
            ),
        }
    } else if count == 3 {
        if socks {
            let host = match HostAddr::read_v4(v, f[0].0, f[0].1) {
                None => { return Err(ParseError::InvalidLocalHost); },
                Some(host) => host,
            };
            return match read_port(v, f[1].0, f[1].1) {
                None => Err(ParseError::InvalidLocalPort),
                Some(port) => Ok(
                    Address {
                        local_host: host,
                        local_port: port,
                        remote_host: socks_host(),
                        remote_port: 0,
                    },
                ),
            };
        }
        let local_port: u16 = match read_port(v, f[0].0, f[0].1) {
            None => { return Err(ParseError::InvalidLocalPort); },
            Some(port) => port,
        };
        match read_port(v, f[2].0, f[2].1) {
            None => Err(ParseError::InvalidRemotePort),
            Some(remote_port) => Ok(
                Address {
                    local_host: any,
                    local_port,
                    remote_host: field_text(text, v, f[1]),
                    remote_port,
                },
            ),
        }
    } else {
        let host = match HostAddr::read_v4(v, f[0].0, f[0].1) {
            None => { return Err(ParseError::InvalidLocalHost); },
            Some(host) => host,
        };
        let local_port: u16 = match read_port(v, f[1].0, f[1].1) {
            None => { return Err(ParseError::InvalidLocalPort); },
            Some(port) => port,
        };
        match read_port(v, f[3].0, f[3].1) {
            None => Err(ParseError::InvalidRemotePort),
            Some(remote_port) => Ok(
                Address {
                    local_host: host,
                    local_port,
                    remote_host: field_text(text, v, f[2]),
                    remote_port,
                },
            ),
        }
    }
}

/// Appends the four address fields, with `:` between them, to `out`.
fn push_address(
    out: &mut String,
    a: u8,
    b: u8,
    c: u8,
    d: u8,
    local_port: u16,
    remote_host: &str,
    remote_port: u16,
)
    ensures
        final(out)@ == old(out)@ + (ipv4_text(a, b, c, d).push(':') + (decimal_text(
            local_port as nat,
        ).push(':') + (remote_host@.push(':') + decimal_text(remote_port as nat)))),
{
    proof {
        reveal_strlit(":");
        assert(":"@ =~= seq![':']);
    }
    push_ipv4(out, a, b, c, d);
    out.append(":");
    let ghost s1 = out@;
    assert(s1 =~= old(out)@ + ipv4_text(a, b, c, d).push(':'));
    push_decimal(out, local_port as u32);
    out.append(":");
    let ghost s2 = out@;
    assert(s2 =~= s1 + decimal_text(local_port as nat).push(':'));
    out.append(remote_host);
    out.append(":");
    let ghost s3 = out@;
    assert(s3 =~= s2 + remote_host@.push(':'));
    push_decimal(out, remote_port as u32);
    assert(out@ =~= old(out)@ + (ipv4_text(a, b, c, d).push(':') + (decimal_text(
        local_port as nat,
    ).push(':') + (remote_host@.push(':') + decimal_text(remote_port as nat)))));
}

/// The target of `d` as text: the remote host, `:` and the remote port.
pub open spec fn target_text(d: RemoteView) -> Seq<char> {
    d.remote_host.push(':') + decimal_text(d.remote_port as nat)
}

impl RemoteRequest {
    /// A rule with the given fields.
    pub fn new(
        local_host: HostAddr,
        local_port: u16,
        remote_host: String,
        remote_port: u16,
        reversed: bool,
        protocol: Protocol,
    ) -> (r: RemoteRequest)
        ensures
            r.local_host == local_host,
            r.local_port == local_port,
            r.remote_host == remote_host,
            r.remote_port == remote_port,
            r.reversed == reversed,
            r.protocol == protocol,
    {
        RemoteRequest { local_host, local_port, remote_host, remote_port, reversed, protocol }
    }

    /// Reads a remote string,
    /// `[R:][[[local-host:]local-port:]remote-host:]remote-port[/protocol]`,
    /// where `socks` may stand in place of `remote-host:remote-port`.
    ///
    /// The local host defaults to `0.0.0.0`, the local port to the remote
    /// port, the remote host to `0.0.0.0` and the protocol to `tcp`; `R:` makes
    /// the rule reversed. The result is the rule that `parse_remote` gives, or
    /// its error.
    pub fn from_str(remote_str: String) -> (r: Result<RemoteRequest, ParseError>)
        ensures
            match parse_remote(remote_str@) {
                Ok(d) => r is Ok && r->Ok_0@ == d,
                Err(e) => r is Err && r->Err_0 == e,
            },
    {
        let text: &str = remote_str.as_str();
        let v = to_chars(text);
        let n: usize = v.len();
        let slash: usize = find_first(&v, '/');
        let protocol = if slash < n {
            proof {
                assert(v@.skip(slash + 1) == v@.subrange(slash + 1, n as int));
            }
            match read_protocol(&v, slash + 1, n) {
                Some(p) => p,
                None => { return Err(ParseError::InvalidProtocol); },
            }
        } else {
            Protocol::Tcp
        };
        let reversed: bool = slash >= 2 && v[0] == 'R' && v[1] == ':';
        let start: usize = if reversed {
            2
        } else {
            0
        };
        let fields = split_ranges(&v, start, slash, ':');
        proof {
            let body = body_of(v@);
            assert(body == v@.take(slash as int));
            if slash >= 2 {
                assert(body[0] == v@[0] && body[1] == v@[1]);
            }
            assert(has_reverse_mark(body) == reversed);
            assert(address_of(body) =~= v@.subrange(start as int, slash as int));
            assert(fields_of(v@, fields@) =~= split(address_of(body), ':'));
        }
        let address = match read_address(text, &v, &fields) {
            Err(e) => { return Err(e); },
            Ok(a) => a,
        };
        let request = RemoteRequest {
            local_host: address.local_host,
            local_port: address.local_port,
            remote_host: address.remote_host,
            remote_port: address.remote_port,
            reversed,
            protocol,
        };
        if request.is_socks() && !request.protocol.is_tcp() {
            return Err(ParseError::SocksOverUdp);
        }
        Ok(request)
    }

    /// Whether the rule asks for a SOCKS5 frontend in place of a fixed
    /// target: remote host `socks` with remote port 0.
    pub fn is_socks(&self) -> (r: bool)
        ensures
            r == self@.is_socks(),
    {
        if self.remote_port != 0 {
            return false;
        }
        let v = to_chars(self.remote_host.as_str());
        assert(v@.subrange(0, v@.len() as int) == v@);
        is_socks_field(&v, 0, v.len())
    }

    /// The remote string of this rule with every field written out,
    /// `[R:]local-host:local-port:remote-host:remote-port/protocol`, which
    /// `from_str` reads back as this rule. `None` where remote strings cannot
    /// express the rule, and only there.
    pub fn to_remote_string(&self) -> (r: Option<String>)
        ensures
            self@.expressible() ==> r is Some && r->0@ == format_remote(self@),
            !self@.expressible() ==> r is None,
    {
        let (a, b, c, d) = match self.local_host {
            HostAddr::V4(a, b, c, d) => (a, b, c, d),
            HostAddr::V6(_) => { return None; },
        };
        let host = to_chars(self.remote_host.as_str());
        let colon: usize = find_first(&host, ':');
        let slash: usize = find_first(&host, '/');
        proof {
            lemma_first_index(host@, ':');
            lemma_first_index(host@, '/');
            assert(host@.take(host@.len() as int) == host@);
        }
        if colon < host.len() || slash < host.len() {
            return None;
        }
        if self.is_socks() && !self.protocol.is_tcp() {
            return None;
        }
        let mut out = String::new();
        if self.reversed {
            proof {
                reveal_strlit("R:");
            }
            out.append("R:");
        }
        assert(out@ =~= reverse_mark(self.reversed));
        push_address(
            &mut out,
            a,
            b,
            c,
            d,
            self.local_port,
            self.remote_host.as_str(),
            self.remote_port,
        );
        assert(out@ == reverse_mark(self.reversed) + format_address(self@));
        proof {
            reveal_strlit("/");
        }
        out.append("/");
        out.append(self.protocol.word());
        assert(out@ =~= format_remote(self@)) by {
            assert("/"@ =~= seq!['/']);
        }
        Some(out)
    }

    /// Where the listening side binds: the local host and port of the rule.
    pub fn local_endpoint(&self) -> (r: SocketAddress)
        ensures
            r == (SocketAddress { host: self@.local_host, port: self@.local_port }),
    {
        SocketAddress { host: self.local_host, port: self.local_port }
    }

    /// The target that the dialing side connects to, as `host:port`.
    pub fn target_address(&self) -> (r: String)
        ensures
            r@ == target_text(self@),
    {
        proof {
            reveal_strlit(":");
        }
        let mut r = self.remote_host.clone();
        r.append(":");
        assert(r@ =~= self@.remote_host.push(':'));
        push_decimal(&mut r, self.remote_port as u32);
        r
    }

    /// The target as a socket address, where the remote host is a dotted
    /// quad; `None` where it is anything else.
    pub fn target_endpoint(&self) -> (r: Option<SocketAddress>)
        ensures
            r == match parse_ipv4(self@.remote_host) {
                Some(host) => Some(SocketAddress { host, port: self@.remote_port }),
                None => None,
            },
    {
        match HostAddr::parse_v4(self.remote_host.as_str()) {
            Some(host) => Some(SocketAddress { host, port: self.remote_port }),
            None => None,
        }
    }
}

} // verus!
