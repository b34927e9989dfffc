//! The SOCKS5 frontend: the handshake with an application that names the
//! target of its connection, step by step, and the rule made for that target.

use vstd::prelude::*;
use vstd::slice::slice_subrange;
use vstd::string::StringExecFns;
use vstd::utf8::{decode_utf8, valid_utf8};
use crate::common::addr::{ipv4_text, push_ipv4};
use crate::common::remote::{Protocol, RemoteRequest, RemoteView};
use crate::common::text::{decimal_text, push_decimal};

verus! {

/// The version byte of SOCKS5.
pub const SOCKS_VERSION: u8 = 5;

/// The command CONNECT, the only one that is served.
pub const COMMAND_CONNECT: u8 = 1;

/// The address type of a version 4 address: four bytes.
pub const ADDRESS_IPV4: u8 = 1;

/// The address type of a domain name: a length byte, then the name.
pub const ADDRESS_DOMAIN: u8 = 3;

/// Why a handshake was given up.
#[derive(Clone, Copy, Debug, PartialEq, Eq, Structural)]
pub enum SocksError {
    /// The greeting names another version than 5.
    UnsupportedVersion(u8),
    /// The request asks for another command than CONNECT.
    UnsupportedCommand(u8),
    /// The target is neither a version 4 address nor a domain name.
    UnsupportedAddressType(u8),
    /// The input has not the length that the phase expects.
    UnexpectedLength,
}

/// What the handshake waits for.
#[derive(Clone, Copy, Debug, PartialEq, Eq, Structural)]
pub enum SocksPhase {
    /// The greeting: the version and the number of methods.
    Greeting,
    /// The methods that the application offers, `count` bytes.
    Methods { count: u8 },
    /// The head of the request: version, command, a reserved byte and the
    /// address type.
    Request,
    /// A version 4 address and the port.
    Ipv4Target,
    /// The length of a domain name.
    DomainLength,
    /// A domain name of `len` bytes and the port.
    DomainTarget { len: u8 },
}

impl SocksPhase {
    /// The number of bytes that the phase reads, no more and no fewer.
    pub open spec fn expected(self) -> nat {
        match self {
            SocksPhase::Greeting => 2,
            SocksPhase::Methods { count } => count as nat,
            SocksPhase::Request => 4,
            SocksPhase::Ipv4Target => 6,
            SocksPhase::DomainLength => 1,
            SocksPhase::DomainTarget { len } => (len + 2) as nat,
        }
    }

    /// The number of bytes to read from the application before the next step.
    pub fn expected_len(&self) -> (r: usize)
        ensures
            r == self.expected(),
    {
        match self {
            SocksPhase::Greeting => 2,
            SocksPhase::Methods { count } => *count as usize,
            SocksPhase::Request => 4,
            SocksPhase::Ipv4Target => 6,
            SocksPhase::DomainLength => 1,
            SocksPhase::DomainTarget { len } => *len as usize + 2,
        }
    }
}

/// What one step of the handshake decides.
#[derive(Clone, Debug, PartialEq, Eq)]
pub enum SocksStep {
    /// Write `reply` to the application, if it holds anything, then read what
    /// `next` expects and step again.
    Continue { reply: Vec<u8>, next: SocksPhase },
    /// Write `reply` to the application, if it holds anything, and give the
    /// connection up.
    Reject { reply: Vec<u8>, error: SocksError },
    /// The application asks for a connection to `host:port`.
    Target { host: String, port: u16 },
}

/// The mathematical content of a `SocksStep`.
pub enum SocksStepView {
    Continue { reply: Seq<u8>, next: SocksPhase },
    Reject { reply: Seq<u8>, error: SocksError },
    Target { host: Seq<char>, port: u16 },
}

impl View for SocksStep {
    type V = SocksStepView;

    open spec fn view(&self) -> SocksStepView {
        match self {
            SocksStep::Continue { reply, next } => SocksStepView::Continue {
                reply: reply@,
                next: *next,
            },
            SocksStep::Reject { reply, error } => SocksStepView::Reject {
                reply: reply@,
                error: *error,
            },
            SocksStep::Target { host, port } => SocksStepView::Target { host: host@, port: *port },
        }
    }
}

/// The text that `String::from_utf8_lossy` makes of `bytes`.
pub uninterp spec fn utf8_lossy_text(bytes: Seq<u8>) -> Seq<char>;

/// The port that two bytes denote, the more significant first.
pub open spec fn port_of(high: u8, low: u8) -> u16 {
    (high * 256 + low) as u16
}

/// The reply that accepts the application without authentication.
pub open spec fn method_reply() -> Seq<u8> {
    seq![5u8, 0u8]
}

/// The reply to a command that is not served.
pub open spec fn command_refusal() -> Seq<u8> {
    seq![5u8, 7u8]
}

/// The reply to an address type that is not served.
pub open spec fn address_refusal() -> Seq<u8> {
    seq![5u8, 8u8]
}

/// The reply that tells the application that its connection stands; the bound
/// address in it is left zero.
pub open spec fn success_reply() -> Seq<u8> {
    seq![5u8, 0u8, 0u8, 1u8, 0u8, 0u8, 0u8, 0u8, 0u8, 0u8]
}

/// What the handshake decides in `phase` on the bytes `input`.
///
/// The greeting must name version 5. The methods are read and answered with
/// "no authentication", whatever they are. The request must be CONNECT, else
/// it is answered with "command not supported"; its target must be a
/// version 4 address or a domain name, else it is answered with "address
/// type not supported". The port follows the address, high byte first.
pub open spec fn socks_next(phase: SocksPhase, input: Seq<u8>) -> SocksStepView {
    if input.len() != phase.expected() {
        SocksStepView::Reject { reply: Seq::empty(), error: SocksError::UnexpectedLength }
    } else {
        match phase {
            SocksPhase::Greeting => if input[0] != SOCKS_VERSION {
                SocksStepView::Reject {
                    reply: Seq::empty(),
                    error: SocksError::UnsupportedVersion(input[0]),
                }
            } else {
                SocksStepView::Continue {
                    reply: Seq::empty(),
                    next: SocksPhase::Methods { count: input[1] },
                }
            },
            SocksPhase::Methods { count } => SocksStepView::Continue {
                reply: method_reply(),
                next: SocksPhase::Request,
            },
            SocksPhase::Request => if input[1] != COMMAND_CONNECT {
                SocksStepView::Reject {
                    reply: command_refusal(),
                    error: SocksError::UnsupportedCommand(input[1]),
                }
            } else if input[3] == ADDRESS_IPV4 {
                SocksStepView::Continue { reply: Seq::empty(), next: SocksPhase::Ipv4Target }
            } else if input[3] == ADDRESS_DOMAIN {
                SocksStepView::Continue { reply: Seq::empty(), next: SocksPhase::DomainLength }
            } else {
                SocksStepView::Reject {
                    reply: address_refusal(),
                    error: SocksError::UnsupportedAddressType(input[3]),
                }
            },
            SocksPhase::Ipv4Target => SocksStepView::Target {
                host: ipv4_text(input[0], input[1], input[2], input[3]),
                port: port_of(input[4], input[5]),
            },
            SocksPhase::DomainLength => SocksStepView::Continue {
                reply: Seq::empty(),
                next: SocksPhase::DomainTarget { len: input[0] },
            },
            SocksPhase::DomainTarget { len } => SocksStepView::Target {
                host: utf8_lossy_text(input.take(len as int)),
                port: port_of(input[len as int], input[len + 1]),
            },
        }
    }
}

/// Calls `String::from_utf8_lossy`, which reads bytes as UTF-8 text and puts
/// the replacement character in place of what is not UTF-8. The contract
/// names the text and claims of it what the documentation says: bytes that
/// are UTF-8 give the text that they encode.
#[verifier::external_body]
fn lossy_text(bytes: &[u8]) -> (r: String)
    ensures
        r@ == utf8_lossy_text(bytes@),
        valid_utf8(bytes@) ==> r@ == decode_utf8(bytes@),
{
    String::from_utf8_lossy(bytes).into_owned()
}

/// The step that ends a handshake with the target `host` and the port given
/// by its two bytes, the more significant first.
pub fn target_step(host: String, high: u8, low: u8) -> (r: SocksStep)
    ensures
        r@ == (SocksStepView::Target { host: host@, port: port_of(high, low) }),
{
    let port: u16 = (high as u16) * 256 + (low as u16);
    SocksStep::Target { host, port }
}

/// The reply of two bytes: the version, then `code`.
fn short_reply(code: u8) -> (r: Vec<u8>)
    ensures
        r@ == seq![5u8, code],
{
    let mut r: Vec<u8> = Vec::new();
    r.push(SOCKS_VERSION);
    r.push(code);
    assert(r@ =~= seq![5u8, code]);
    r
}

/// One step of the handshake: what to do in `phase` now that the application
/// has sent `input`, which holds as many bytes as `phase.expected_len()` asked
/// for. Input of another length is rejected.
pub fn socks_step(phase: SocksPhase, input: &Vec<u8>) -> (r: SocksStep)
    ensures
        r@ == socks_next(phase, input@),
{
    if input.len() != phase.expected_len() {
        return SocksStep::Reject { reply: Vec::new(), error: SocksError::UnexpectedLength };
    }
    match phase {
        SocksPhase::Greeting => {
            if input[0] != SOCKS_VERSION {
                SocksStep::Reject {
                    reply: Vec::new(),
                    error: SocksError::UnsupportedVersion(input[0]),
                }
            } else {
                SocksStep::Continue {
                    reply: Vec::new(),
                    next: SocksPhase::Methods { count: input[1] },
                }
            }
        },
        SocksPhase::Methods { count } => SocksStep::Continue {
            reply: short_reply(0),
            next: SocksPhase::Request,
        },
        SocksPhase::Request => {
            if input[1] != COMMAND_CONNECT {
                SocksStep::Reject {
                    reply: short_reply(7),
                    error: SocksError::UnsupportedCommand(input[1]),
                }
            } else if input[3] == ADDRESS_IPV4 {
                SocksStep::Continue { reply: Vec::new(), next: SocksPhase::Ipv4Target }
            } else if input[3] == ADDRESS_DOMAIN {
                SocksStep::Continue { reply: Vec::new(), next: SocksPhase::DomainLength }
            } else {
                SocksStep::Reject {
                    reply: short_reply(8),
                    error: SocksError::UnsupportedAddressType(input[3]),
                }
            }
        },
        SocksPhase::Ipv4Target => {
            let mut host = String::new();
            push_ipv4(&mut host, input[0], input[1], input[2], input[3]);
            assert(host@ =~= ipv4_text(input@[0], input@[1], input@[2], input@[3]));
            target_step(host, input[4], input[5])
        },
        SocksPhase::DomainLength => SocksStep::Continue {
            reply: Vec::new(),
            next: SocksPhase::DomainTarget { len: input[0] },
        },
        SocksPhase::DomainTarget { len } => {
            let n: usize = len as usize;
            let name = slice_subrange(input.as_slice(), 0, n);
            assert(name@ =~= input@.take(len as int));
            let host = lossy_text(name);
            target_step(host, input[n], input[n + 1])
        },
    }
}

/// The reply that tells the application that its connection stands. It is
/// due once the peer has accepted the flow, not before.
pub fn socks_success_reply() -> (r: Vec<u8>)
    ensures
        r@ == success_reply(),
{
    let mut r: Vec<u8> = Vec::new();
    r.push(5);
    r.push(0);
    r.push(0);
    r.push(1);
    r.push(0);
    r.push(0);
    r.push(0);
    r.push(0);
    r.push(0);
    r.push(0);
    assert(r@ =~= success_reply());
    r
}

/// The rule of one connection through the frontend: the listening side of
/// `parent`, TCP, and the target that the handshake gave.
pub fn dynamic_remote(parent: &RemoteRequest, host: String, port: u16) -> (r: RemoteRequest)
    ensures
        r@ == (RemoteView {
            local_host: parent@.local_host,
            local_port: parent@.local_port,
            remote_host: host@,
            remote_port: port,
            reversed: parent@.reversed,
            protocol: Protocol::Tcp,
        }),
{
    RemoteRequest::new(
        parent.local_host,
        parent.local_port,
        host,
        port,
        parent.reversed,
        Protocol::Tcp,
    )
}

/// What `SocksError::message` says of each error.
pub open spec fn socks_error_text(e: SocksError) -> Seq<char> {
    match e {
        SocksError::UnsupportedVersion(v) => "Unsupported SOCKS version: "@ + decimal_text(
            v as nat,
        ),
        SocksError::UnsupportedCommand(c) => "Unsupported SOCKS command: "@ + decimal_text(
            c as nat,
        ),
        SocksError::UnsupportedAddressType(t) => "Unsupported address type: "@ + decimal_text(
            t as nat,
        ),
        SocksError::UnexpectedLength => "Unexpected length of SOCKS input"@,
    }
}

impl SocksError {
    /// The error in words, with the offending byte in decimal.
    pub fn message(&self) -> (r: String)
        ensures
            r@ == socks_error_text(*self),
    {
        match *self {
            SocksError::UnsupportedVersion(v) => {
                let mut r = String::from_str("Unsupported SOCKS version: ");
                push_decimal(&mut r, v as u32);
                r
            },
            SocksError::UnsupportedCommand(c) => {
                let mut r = String::from_str("Unsupported SOCKS command: ");
                push_decimal(&mut r, c as u32);
                r
            },
            SocksError::UnsupportedAddressType(t) => {
                let mut r = String::from_str("Unsupported address type: ");
                push_decimal(&mut r, t as u32);
                r
            },
            SocksError::UnexpectedLength => String::from_str("Unexpected length of SOCKS input"),
        }
    }
}

/// The handshake never tells the application that its connection stands:
/// whatever arrives in whatever phase, the reply is another one.
pub proof fn lemma_handshake_never_confirms(phase: SocksPhase, input: Seq<u8>)
    ensures
        match socks_next(phase, input) {
            SocksStepView::Continue { reply, .. } => reply != success_reply(),
            SocksStepView::Reject { reply, .. } => reply != success_reply(),
            SocksStepView::Target { .. } => true,
        },
{
    assert(success_reply().len() == 10);
    assert(method_reply().len() == 2);
    assert(command_refusal().len() == 2);
    assert(address_refusal().len() == 2);
    assert(Seq::<u8>::empty().len() == 0);
}

/// How a handshake ends.
pub enum HandshakeEnd {
    /// The application asks for a connection to `host:port`.
    Target { host: Seq<char>, port: u16 },
    /// The handshake was given up.
    Rejected(SocksError),
    /// The application has not sent all that the handshake needs.
    Starved,
}

/// A handshake as a whole: all that is written to the application, and how
/// it ends.
pub struct Handshake {
    pub replies: Seq<u8>,
    pub end: HandshakeEnd,
}

/// The most steps that a handshake takes from `phase` on.
pub open spec fn steps_left(phase: SocksPhase) -> nat {
    match phase {
        SocksPhase::Greeting => 5,
        SocksPhase::Methods { .. } => 4,
        SocksPhase::Request => 3,
        SocksPhase::DomainLength => 2,
        SocksPhase::Ipv4Target => 1,
        SocksPhase::DomainTarget { .. } => 1,
    }
}

/// The handshake from `phase` on with an application that sends `stream`:
/// each step takes from the stream as many bytes as its phase expects.
pub open spec fn handshake(phase: SocksPhase, stream: Seq<u8>) -> Handshake
    decreases steps_left(phase),
{
    let n = phase.expected() as int;
    if stream.len() < n {
        Handshake { replies: Seq::empty(), end: HandshakeEnd::Starved }
    } else {
        match socks_next(phase, stream.take(n)) {
            SocksStepView::Continue { reply, next } => if steps_left(next) < steps_left(phase) {
                let rest = handshake(next, stream.skip(n));
                Handshake { replies: reply + rest.replies, end: rest.end }
            } else {
                Handshake { replies: reply, end: HandshakeEnd::Starved }
            },
            SocksStepView::Reject { reply, error } => Handshake {
                replies: reply,
                end: HandshakeEnd::Rejected(error),
            },
            SocksStepView::Target { host, port } => Handshake {
                replies: Seq::empty(),
                end: HandshakeEnd::Target { host, port },
            },
        }
    }
}

/// Every step that goes on leaves fewer steps to take, so that a handshake
/// ends after five steps at most.
pub proof fn lemma_step_goes_forward(phase: SocksPhase, input: Seq<u8>)
    ensures
        socks_next(phase, input) matches SocksStepView::Continue { next, .. } ==> steps_left(next)
            < steps_left(phase),
{
}

/// The bytes with which an application greets the frontend and offers
/// `methods`.
pub open spec fn greeting_of(methods: Seq<u8>) -> Seq<u8> {
    seq![SOCKS_VERSION, methods.len() as u8] + methods
}

/// The head of a request for `command` on a target of type `address_type`.
pub open spec fn request_head(version: u8, command: u8, reserved: u8, address_type: u8) -> Seq<
    u8,
> {
    seq![version, command, reserved, address_type]
}

/// The handshake of a greeting that is followed by `rest` writes the reply
/// "no authentication", then goes on with the request in `rest`.
proof fn lemma_greeting(methods: Seq<u8>, rest: Seq<u8>)
    requires
        methods.len() <= 255,
    ensures
        handshake(SocksPhase::Greeting, greeting_of(methods) + rest).replies == method_reply()
            + handshake(SocksPhase::Request, rest).replies,
        handshake(SocksPhase::Greeting, greeting_of(methods) + rest).end == handshake(
            SocksPhase::Request,
            rest,
        ).end,
{
    let stream = greeting_of(methods) + rest;
    let count = methods.len() as u8;
    assert(stream.take(2) =~= seq![SOCKS_VERSION, count]);
    let after = stream.skip(2);
    assert(after =~= methods + rest);
    assert(after.take(count as int) =~= methods);
    assert(after.skip(count as int) =~= rest);
    let step1 = socks_next(SocksPhase::Greeting, stream.take(2));
    assert(step1 == (SocksStepView::Continue {
        reply: Seq::empty(),
        next: SocksPhase::Methods { count },
    }));
    let step2 = socks_next(SocksPhase::Methods { count }, after.take(count as int));
    assert(step2 == (SocksStepView::Continue { reply: method_reply(), next: SocksPhase::Request }));
    let h2 = handshake(SocksPhase::Methods { count }, after);
    let h3 = handshake(SocksPhase::Request, rest);
    assert(h2.replies == method_reply() + h3.replies);
    assert(h2.end == h3.end);
    let h1 = handshake(SocksPhase::Greeting, stream);
    assert(h1.replies == Seq::<u8>::empty() + h2.replies);
    assert(Seq::<u8>::empty() + h2.replies =~= h2.replies);
}

/// An application that greets the frontend and asks for a connection to a
/// domain name is answered "no authentication" and nothing else, and the
/// handshake gives that name, read as text, with the port that follows it.
/// What the application sends after the port is left in the stream.
pub proof fn lemma_connect_to_domain(
    methods: Seq<u8>,
    version: u8,
    reserved: u8,
    name: Seq<u8>,
    high: u8,
    low: u8,
    payload: Seq<u8>,
)
    requires
        methods.len() <= 255,
        name.len() <= 255,
    ensures
        handshake(
            SocksPhase::Greeting,
            greeting_of(methods) + (request_head(version, COMMAND_CONNECT, reserved, ADDRESS_DOMAIN)
                + (seq![name.len() as u8] + (name + (seq![high, low] + payload)))),
        ) == (Handshake {
            replies: method_reply(),
            end: HandshakeEnd::Target { host: utf8_lossy_text(name), port: port_of(high, low) },
        }),
{
    let len = name.len() as u8;
    let tail = name + (seq![high, low] + payload);
    let after_head = seq![len] + tail;
    let request = request_head(version, COMMAND_CONNECT, reserved, ADDRESS_DOMAIN) + after_head;
    lemma_greeting(methods, request);
    assert(request.take(4) =~= request_head(version, COMMAND_CONNECT, reserved, ADDRESS_DOMAIN));
    assert(request.skip(4) =~= after_head);
    assert(after_head.take(1) =~= seq![len]);
    assert(after_head.skip(1) =~= tail);
    assert(tail.take(len + 2) =~= name + seq![high, low]);
    let input = tail.take(len + 2);
    assert(input.take(len as int) =~= name);
    assert(input[len as int] == high && input[len + 1] == low);
    let h_target = handshake(SocksPhase::DomainTarget { len }, tail);
    assert(h_target == (Handshake {
        replies: Seq::empty(),
        end: HandshakeEnd::Target { host: utf8_lossy_text(name), port: port_of(high, low) },
    }));
    let h_len = handshake(SocksPhase::DomainLength, after_head);
    assert(h_len.replies =~= Seq::<u8>::empty());
    assert(h_len.end == h_target.end);
    let h_request = handshake(SocksPhase::Request, request);
    assert(h_request.replies =~= Seq::<u8>::empty());
    assert(h_request.end == h_target.end);
    assert(method_reply() + h_request.replies =~= method_reply());
}

/// An application that greets the frontend and asks for a connection to a
/// version 4 address is answered "no authentication" and nothing else, and
/// the handshake gives that address in dotted-quad notation, with the port
/// that follows it.
pub proof fn lemma_connect_to_ipv4(
    methods: Seq<u8>,
    version: u8,
    reserved: u8,
    a: u8,
    b: u8,
    c: u8,
    d: u8,
    high: u8,
    low: u8,
    payload: Seq<u8>,
)
    requires
        methods.len() <= 255,
    ensures
        handshake(
            SocksPhase::Greeting,
            greeting_of(methods) + (request_head(version, COMMAND_CONNECT, reserved, ADDRESS_IPV4)
                + (seq![a, b, c, d, high, low] + payload)),
        ) == (Handshake {
            replies: method_reply(),
            end: HandshakeEnd::Target { host: ipv4_text(a, b, c, d), port: port_of(high, low) },
        }),
{
    let tail = seq![a, b, c, d, high, low] + payload;
    let request = request_head(version, COMMAND_CONNECT, reserved, ADDRESS_IPV4) + tail;
    lemma_greeting(methods, request);
    assert(request.take(4) =~= request_head(version, COMMAND_CONNECT, reserved, ADDRESS_IPV4));
    assert(request.skip(4) =~= tail);
    assert(tail.take(6) =~= seq![a, b, c, d, high, low]);
    let h_target = handshake(SocksPhase::Ipv4Target, tail);
    assert(h_target == (Handshake {
        replies: Seq::empty(),
        end: HandshakeEnd::Target { host: ipv4_text(a, b, c, d), port: port_of(high, low) },
    }));
    let h_request = handshake(SocksPhase::Request, request);
    assert(h_request.replies =~= Seq::<u8>::empty());
    assert(h_request.end == h_target.end);
    assert(method_reply() + h_request.replies =~= method_reply());
}

/// A request for another command than CONNECT is answered "command not
/// supported" after the reply to the greeting, and the handshake is given
/// up, whatever target the request names.
pub proof fn lemma_other_command_refused(
    methods: Seq<u8>,
    version: u8,
    command: u8,
    reserved: u8,
    address_type: u8,
    rest: Seq<u8>,
)
    requires
        methods.len() <= 255,
        command != COMMAND_CONNECT,
    ensures
        handshake(
            SocksPhase::Greeting,
            greeting_of(methods) + (request_head(version, command, reserved, address_type) + rest),
        ) == (Handshake {
            replies: method_reply() + command_refusal(),
            end: HandshakeEnd::Rejected(SocksError::UnsupportedCommand(command)),
        }),
{
    let request = request_head(version, command, reserved, address_type) + rest;
    lemma_greeting(methods, request);
    assert(request.take(4) =~= request_head(version, command, reserved, address_type));
}

/// A CONNECT to a target that is neither a version 4 address nor a domain
/// name, a version 6 address among them, is answered "address type not
/// supported" after the reply to the greeting, and the handshake is given up.
pub proof fn lemma_other_address_refused(
    methods: Seq<u8>,
    version: u8,
    reserved: u8,
    address_type: u8,
    rest: Seq<u8>,
)
    requires
        methods.len() <= 255,
        address_type != ADDRESS_IPV4,
        address_type != ADDRESS_DOMAIN,
    ensures
        handshake(
            SocksPhase::Greeting,
            greeting_of(methods) + (request_head(version, COMMAND_CONNECT, reserved, address_type)
                + rest),
        ) == (Handshake {
            replies: method_reply() + address_refusal(),
            end: HandshakeEnd::Rejected(SocksError::UnsupportedAddressType(address_type)),
        }),
{
    let request = request_head(version, COMMAND_CONNECT, reserved, address_type) + rest;
    lemma_greeting(methods, request);
    assert(request.take(4) =~= request_head(version, COMMAND_CONNECT, reserved, address_type));
}

} // verus!
