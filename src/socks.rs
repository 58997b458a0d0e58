//! The client side of a SOCKS5 CONNECT negotiation (RFC 1928, no authentication).
use vstd::prelude::*;

use crate::error::BridgeError;
use crate::lines::views;
use crate::text::{copy_range, push_bytes};

verus! {

pub open spec fn is_digit(b: u8) -> bool {
    0x30 <= b <= 0x39
}

/// The value of a string of decimal digits.
pub open spec fn digits_value(s: Seq<u8>) -> nat
    decreases s.len(),
{
    if s.len() == 0 {
        0
    } else {
        digits_value(s.drop_last()) * 10 + (s.last() - 0x30) as nat
    }
}

/// The digits of a port: all after an optional leading `+`.
pub open spec fn port_digits(s: Seq<u8>) -> Seq<u8> {
    if s.len() > 0 && s[0] == 0x2b {
        s.subrange(1, s.len() as int)
    } else {
        s
    }
}

/// A port written in decimal, as `u16::from_str` reads it: an optional `+`, then one
/// or more digits, with a value of at most 65535.
pub open spec fn port_of(s: Seq<u8>) -> Option<u16> {
    let d = port_digits(s);
    if d.len() > 0 && (forall|i: int| 0 <= i < d.len() ==> is_digit(#[trigger] d[i]))
        && digits_value(d) <= 65535 {
        Some(digits_value(d) as u16)
    } else {
        None
    }
}

/// Reads a port number.
pub fn parse_port(s: &[u8]) -> (r: Result<u16, BridgeError>)
    ensures
        match port_of(s@) {
            Some(p) => r == Ok::<u16, BridgeError>(p),
            None => r == Err::<u16, BridgeError>(BridgeError::InvalidPort),
        },
{
    let start: usize = if s.len() > 0 && s[0] == 0x2b { 1 } else { 0 };
    let ghost d = port_digits(s@);
    assert(d =~= s@.subrange(start as int, s@.len() as int));
    if start == s.len() {
        return Err(BridgeError::InvalidPort);
    }
    let mut value: u32 = 0;
    let mut i: usize = start;
    while i < s.len()
        invariant
            start <= i <= s@.len(),
            d == s@.subrange(start as int, s@.len() as int),
            d == port_digits(s@),
            forall|k: int| start <= k < i ==> is_digit(#[trigger] s@[k]),
            value as nat == if digits_value(s@.subrange(start as int, i as int)) <= 65536 {
                digits_value(s@.subrange(start as int, i as int))
            } else {
                65536
            },
        decreases s@.len() - i,
    {
        let c = s[i];
        if c < 0x30 || c > 0x39 {
            assert(d[i - start] == s@[i as int]);
            assert(!is_digit(d[i - start]));
            return Err(BridgeError::InvalidPort);
        }
        let ghost prev = digits_value(s@.subrange(start as int, i as int));
        assert(s@.subrange(start as int, i + 1).drop_last() =~= s@.subrange(start as int, i as int));
        let next: u32 = value * 10 + (c - 0x30) as u32;
        value = if next > 65536 { 65536 } else { next };
        proof {
            let dv = (c - 0x30) as nat;
            assert(digits_value(s@.subrange(start as int, i + 1)) == prev * 10 + dv);
            if prev > 65536 {
                assert(prev * 10 + dv > 65536) by (nonlinear_arith)
                    requires prev > 65536;
            }
        }
        i = i + 1;
    }
    assert(s@.subrange(start as int, i as int) =~= d);
    if value > 65535 {
        Err(BridgeError::InvalidPort)
    } else {
        Ok(value as u16)
    }
}

/// The last `:` of `s` is at position `i`.
pub open spec fn last_colon_at(s: Seq<u8>, i: int) -> bool {
    0 <= i < s.len() && s[i] == 0x3a && forall|j: int| i < j < s.len() ==> #[trigger] s[j] != 0x3a
}

/// Host and port of a `host:port` address, split at the last `:` so that an IPv6 host
/// keeps its own colons; `bad` is the error for an address without any `:`.
pub open spec fn host_port_of(s: Seq<u8>, bad: BridgeError) -> Result<(Seq<u8>, u16), BridgeError> {
    if exists|i: int| last_colon_at(s, i) {
        let i = choose|i: int| last_colon_at(s, i);
        match port_of(s.subrange(i + 1, s.len() as int)) {
            Some(p) => Ok((s.subrange(0, i), p)),
            None => Err(BridgeError::InvalidPort),
        }
    } else {
        Err(bad)
    }
}

/// Splits a `host:port` address at its last colon.
pub fn parse_host_port(s: &[u8], bad: BridgeError) -> (r: Result<(Vec<u8>, u16), BridgeError>)
    ensures
        match r {
            Ok((h, p)) => host_port_of(s@, bad) == Ok::<(Seq<u8>, u16), BridgeError>((h@, p)),
            Err(e) => host_port_of(s@, bad) == Err::<(Seq<u8>, u16), BridgeError>(e),
        },
{
    let mut colon: usize = 0;
    let mut found = false;
    let mut i: usize = 0;
    while i < s.len()
        invariant
            0 <= i <= s@.len(),
            !found ==> forall|j: int| 0 <= j < i ==> s@[j] != 0x3a,
            found ==> colon < i && s@[colon as int] == 0x3a && forall|j: int|
                colon < j < i ==> s@[j] != 0x3a,
        decreases s@.len() - i,
    {
        if s[i] == 0x3a {
            colon = i;
            found = true;
        }
        i = i + 1;
    }
    if !found {
        assert forall|k: int| !last_colon_at(s@, k) by {
            if 0 <= k < s@.len() {
                assert(s@[k] != 0x3a);
            }
        }
        return Err(bad);
    }
    assert(last_colon_at(s@, colon as int));
    assert forall|k: int| last_colon_at(s@, k) implies k == colon by {
        if k < colon {
            assert(s@[colon as int] != 0x3a);
        } else if k > colon {
            assert(s@[k] != 0x3a);
        }
    }
    let host = copy_range(s, 0, colon);
    let rest = copy_range(s, colon + 1, s.len());
    let port = parse_port(rest.as_slice())?;
    Ok((host, port))
}

/// A host as written in a URL or a `host:port` address, without the brackets that
/// enclose an IPv6 literal there (`[::1]` becomes `::1`).
pub open spec fn unbracketed(h: Seq<u8>) -> Seq<u8> {
    if h.len() >= 2 && h[0] == 0x5b && h.last() == 0x5d {
        h.subrange(1, h.len() - 1)
    } else {
        h
    }
}

/// Removes the brackets around an IPv6 literal host.
pub fn strip_brackets(h: &[u8]) -> (r: Vec<u8>)
    ensures
        r@ == unbracketed(h@),
{
    let n = h.len();
    if n >= 2 && h[0] == 0x5b && h[n - 1] == 0x5d {
        copy_range(h, 1, n - 1)
    } else {
        let r = copy_range(h, 0, n);
        assert(r@ =~= h@);
        r
    }
}

/// The address forms of a SOCKS5 CONNECT request.
pub enum SocksAddress {
    Ipv4([u8; 4]),
    Ipv6([u8; 16]),
    Domain(Vec<u8>),
}

/// A SOCKS5 address, in plain values.
pub enum AddressModel {
    Ipv4(Seq<u8>),
    Ipv6(Seq<u8>),
    Domain(Seq<u8>),
}

pub open spec fn address_model(a: SocksAddress) -> AddressModel {
    match a {
        SocksAddress::Ipv4(b) => AddressModel::Ipv4(b@),
        SocksAddress::Ipv6(b) => AddressModel::Ipv6(b@),
        SocksAddress::Domain(d) => AddressModel::Domain(d@),
    }
}

/// An IPv4 field as `Ipv4Addr::from_str` reads it: one to three digits, no leading
/// zero unless the field is `0`, and a value of at most 255.
pub open spec fn octet_of(f: Seq<u8>) -> Option<u8> {
    if 1 <= f.len() <= 3 && (forall|i: int| 0 <= i < f.len() ==> is_digit(#[trigger] f[i])) && !(
    f.len() > 1 && f[0] == 0x30) && digits_value(f) <= 255 {
        Some(digits_value(f) as u8)
    } else {
        None
    }
}

/// The `.`-separated fields of `s` from position `i` on, the current one begun at `start`.
pub open spec fn dot_fields_from(s: Seq<u8>, start: int, i: int) -> Seq<Seq<u8>>
    decreases s.len() - i,
{
    if i >= s.len() {
        seq![s.subrange(start, s.len() as int)]
    } else if s[i] == 0x2e {
        seq![s.subrange(start, i)] + dot_fields_from(s, i + 1, i + 1)
    } else {
        dot_fields_from(s, start, i + 1)
    }
}

/// The four octets of a host written in dotted-decimal IPv4 notation, if it is so written.
pub open spec fn ipv4_of(s: Seq<u8>) -> Option<Seq<u8>> {
    let f = dot_fields_from(s, 0, 0);
    if f.len() == 4 && octet_of(f[0]) is Some && octet_of(f[1]) is Some && octet_of(f[2]) is Some
        && octet_of(f[3]) is Some {
        Some(seq![octet_of(f[0])->0, octet_of(f[1])->0, octet_of(f[2])->0, octet_of(f[3])->0])
    } else {
        None
    }
}

/// Reads one field of a dotted-decimal IPv4 address.
pub fn parse_octet(f: &[u8]) -> (r: Option<u8>)
    ensures
        r == octet_of(f@),
{
    let n = f.len();
    if n < 1 || n > 3 {
        return None;
    }
    if n > 1 && f[0] == 0x30 {
        return None;
    }
    let mut value: u32 = 0;
    let mut i: usize = 0;
    while i < n
        invariant
            n == f@.len(),
            1 <= n <= 3,
            0 <= i <= n,
            forall|k: int| 0 <= k < i ==> is_digit(#[trigger] f@[k]),
            value as nat == digits_value(f@.subrange(0, i as int)),
            i == 0 ==> value == 0,
            i == 1 ==> value < 10,
            i == 2 ==> value < 100,
            i == 3 ==> value < 1000,
        decreases n - i,
    {
        let c = f[i];
        if c < 0x30 || c > 0x39 {
            assert(!is_digit(f@[i as int]));
            return None;
        }
        assert(f@.subrange(0, i + 1).drop_last() =~= f@.subrange(0, i as int));
        value = value * 10 + (c - 0x30) as u32;
        i = i + 1;
    }
    assert(f@.subrange(0, n as int) =~= f@);
    if value > 255 {
        None
    } else {
        Some(value as u8)
    }
}

/// Reads a host written in dotted-decimal IPv4 notation.
pub fn parse_ipv4(s: &[u8]) -> (r: Option<[u8; 4]>)
    ensures
        match r {
            Some(a) => ipv4_of(s@) == Some(a@),
            None => ipv4_of(s@) is None,
        },
{
    let mut fields: Vec<Vec<u8>> = Vec::new();
    let mut start: usize = 0;
    let mut i: usize = 0;
    while i < s.len()
        invariant
            start <= i <= s@.len(),
            views(fields@) + dot_fields_from(s@, start as int, i as int) == dot_fields_from(
                s@,
                0,
                0,
            ),
        decreases s@.len() - i,
    {
        if s[i] == 0x2e {
            let field = copy_range(s, start, i);
            let ghost before = fields@;
            fields.push(field);
            assert(views(fields@) =~= views(before).push(field@));
            assert(views(fields@) + dot_fields_from(s@, i + 1, i + 1) =~= views(before) + (seq![
                s@.subrange(start as int, i as int),
            ] + dot_fields_from(s@, i + 1, i + 1)));
            start = i + 1;
        }
        i = i + 1;
    }
    let last = copy_range(s, start, s.len());
    let ghost before = fields@;
    fields.push(last);
    assert(views(fields@) =~= views(before).push(last@));
    assert(views(fields@) =~= dot_fields_from(s@, 0, 0));
    if fields.len() != 4 {
        return None;
    }
    let ghost f = views(fields@);
    assert(f[0] == fields@[0]@ && f[1] == fields@[1]@ && f[2] == fields@[2]@ && f[3]
        == fields@[3]@);
    let a = parse_octet(fields[0].as_slice());
    let b = parse_octet(fields[1].as_slice());
    let c = parse_octet(fields[2].as_slice());
    let d = parse_octet(fields[3].as_slice());
    match (a, b, c, d) {
        (Some(a), Some(b), Some(c), Some(d)) => {
            let octets: [u8; 4] = [a, b, c, d];
            assert(octets@ =~= seq![a, b, c, d]);
            Some(octets)
        },
        _ => None,
    }
}

/// The sixteen octets of a host written as an IPv6 address, if it is one.
pub uninterp spec fn ipv6_of(s: Seq<u8>) -> Option<Seq<u8>>;

/// Relies on `FromStr` for `core::net::Ipv6Addr` (and its `octets`, the segments in
/// big-endian order): the result depends on the text alone.
#[verifier::external_body]
fn parse_ipv6(s: &[u8]) -> (r: Option<[u8; 16]>)
    ensures
        match r {
            Some(a) => ipv6_of(s@) == Some(a@),
            None => ipv6_of(s@) is None,
        },
{
    String::from_utf8_lossy(s).parse::<core::net::Ipv6Addr>().ok().map(|a| a.octets())
}

/// Address selection given what the two address parsers made of the host: IPv4 first,
/// then IPv6, else a domain name, which must fit a one-byte length.
pub open spec fn select_address(host: Seq<u8>, v4: Option<Seq<u8>>, v6: Option<Seq<u8>>) -> Result<
    AddressModel,
    BridgeError,
> {
    match v4 {
        Some(a) => Ok(AddressModel::Ipv4(a)),
        None => match v6 {
            Some(a) => Ok(AddressModel::Ipv6(a)),
            None => if host.len() <= 255 {
                Ok(AddressModel::Domain(host))
            } else {
                Err(BridgeError::DomainTooLong)
            },
        },
    }
}

/// The SOCKS5 address for a target host.
pub open spec fn address_for(host: Seq<u8>) -> Result<AddressModel, BridgeError> {
    select_address(host, ipv4_of(host), ipv6_of(host))
}

pub open spec fn address_result(r: Result<SocksAddress, BridgeError>) -> Result<
    AddressModel,
    BridgeError,
> {
    match r {
        Ok(a) => Ok(address_model(a)),
        Err(e) => Err(e),
    }
}

impl SocksAddress {
    /// Chooses the address form from the parsed IPv4 and IPv6 forms of the host.
    pub fn select(host: &[u8], v4: Option<[u8; 4]>, v6: Option<[u8; 16]>) -> (r: Result<
        SocksAddress,
        BridgeError,
    >)
        ensures
            address_result(r) == select_address(
                host@,
                match v4 {
                    Some(a) => Some(a@),
                    None => None,
                },
                match v6 {
                    Some(a) => Some(a@),
                    None => None,
                },
            ),
    {
        match v4 {
            Some(a) => Ok(SocksAddress::Ipv4(a)),
            None => match v6 {
                Some(a) => Ok(SocksAddress::Ipv6(a)),
                None => {
                    if host.len() <= 255 {
                        let d = copy_range(host, 0, host.len());
                        assert(d@ =~= host@);
                        Ok(SocksAddress::Domain(d))
                    } else {
                        Err(BridgeError::DomainTooLong)
                    }
                },
            },
        }
    }

    /// The address form of a target host.
    pub fn from_host(host: &[u8]) -> (r: Result<SocksAddress, BridgeError>)
        ensures
            address_result(r) == address_for(host@),
    {
        let v4 = parse_ipv4(host);
        let v6 = parse_ipv6(host);
        SocksAddress::select(host, v4, v6)
    }
}

/// Address selection is total and follows a fixed order: a host that reads as IPv4 is
/// sent as IPv4, else one that reads as IPv6 as IPv6, else as a domain name when it is at
/// most 255 bytes long; a longer one is refused.
pub proof fn lemma_address_selection(host: Seq<u8>)
    ensures
        ipv4_of(host) is Some ==> address_for(host) == Ok::<AddressModel, BridgeError>(
            AddressModel::Ipv4(ipv4_of(host)->0),
        ),
        ipv4_of(host) is None && ipv6_of(host) is Some ==> address_for(host) == Ok::<
            AddressModel,
            BridgeError,
        >(AddressModel::Ipv6(ipv6_of(host)->0)),
        ipv4_of(host) is None && ipv6_of(host) is None && host.len() <= 255 ==> address_for(host)
            == Ok::<AddressModel, BridgeError>(AddressModel::Domain(host)),
        ipv4_of(host) is None && ipv6_of(host) is None && host.len() > 255 ==> address_for(host)
            == Err::<AddressModel, BridgeError>(BridgeError::DomainTooLong),
{
}

/// The address field of a CONNECT request: its type byte, then the address.
pub open spec fn address_bytes(a: AddressModel) -> Seq<u8> {
    match a {
        AddressModel::Ipv4(b) => seq![0x01u8] + b,
        AddressModel::Ipv6(b) => seq![0x04u8] + b,
        AddressModel::Domain(d) => seq![0x03u8, d.len() as u8] + d,
    }
}

/// The CONNECT request for an address and a port (big-endian).
pub open spec fn connect_request_bytes(a: AddressModel, port: u16) -> Seq<u8> {
    seq![0x05u8, 0x01u8, 0x00u8] + address_bytes(a) + seq![(port / 256) as u8, (port % 256) as u8]
}

/// Encodes a CONNECT request.
pub fn connect_request(a: &SocksAddress, port: u16) -> (r: Vec<u8>)
    ensures
        r@ == connect_request_bytes(address_model(*a), port),
{
    let mut r: Vec<u8> = Vec::new();
    r.push(0x05);
    r.push(0x01);
    r.push(0x00);
    match a {
        SocksAddress::Ipv4(b) => {
            r.push(0x01);
            push_bytes(&mut r, b.as_slice());
        },
        SocksAddress::Ipv6(b) => {
            r.push(0x04);
            push_bytes(&mut r, b.as_slice());
        },
        SocksAddress::Domain(d) => {
            r.push(0x03);
            r.push(d.len() as u8);
            push_bytes(&mut r, d.as_slice());
        },
    }
    r.push((port / 256) as u8);
    r.push((port % 256) as u8);
    assert(r@ =~= connect_request_bytes(address_model(*a), port));
    r
}

/// The method-selection greeting: version 5, one method, "no authentication".
pub open spec fn greeting_bytes() -> Seq<u8> {
    seq![0x05u8, 0x01u8, 0x00u8]
}

/// How many more bytes follow a successful ten-byte CONNECT reply whose address type is
/// `atyp` and whose fifth byte is `b4`: the rest of an IPv6 address, or `b4 + 1` for a
/// domain name.
pub open spec fn reply_tail(atyp: u8, b4: u8) -> nat {
    if atyp == 0x04 {
        12
    } else if atyp == 0x03 {
        b4 as nat + 1
    } else {
        0
    }
}

/// Where a SOCKS5 negotiation stands.
#[derive(Debug, Clone, Copy, PartialEq, Eq, Structural)]
pub enum SocksStage {
    /// Nothing sent yet.
    Start,
    /// The greeting is out; the two-byte method reply is awaited.
    AwaitMethod,
    /// The CONNECT request is out; the first ten bytes of the reply are awaited.
    AwaitReply,
    /// The rest of the bound address in the reply is awaited.
    AwaitTail,
    /// The stream is connected to the target.
    Established,
    /// The negotiation failed.
    Failed,
}

/// What the connection driving a negotiation must do next.
pub enum SocksAction {
    /// Write `send`, then read exactly `read` bytes and hand them back.
    Exchange { send: Vec<u8>, read: usize },
    /// Read exactly this many bytes and hand them back.
    Read(usize),
    /// The stream now carries raw bytes to and from the target.
    Connected,
    /// The negotiation failed.
    Failed(BridgeError),
}

/// The client side of a SOCKS5 CONNECT negotiation without authentication.
pub struct SocksClient {
    stage: SocksStage,
    request: Vec<u8>,
    expect: usize,
}

impl SocksClient {
    pub closed spec fn stage(&self) -> SocksStage {
        self.stage
    }

    /// The CONNECT request that the negotiation sends.
    pub closed spec fn request(&self) -> Seq<u8> {
        self.request@
    }

    /// The stage and the expected reply length agree.
    pub closed spec fn wf(&self) -> bool {
        &&& self.stage == SocksStage::AwaitMethod ==> self.expect == 2
        &&& self.stage == SocksStage::AwaitReply ==> self.expect == 10
    }

    /// How many bytes the next reply must hold.
    pub closed spec fn expected(&self) -> nat {
        self.expect as nat
    }

    /// A negotiation that will ask the proxy for `address` and `port`.
    pub fn new(address: &SocksAddress, port: u16) -> (r: SocksClient)
        ensures
            r.wf(),
            r.stage() == SocksStage::Start,
            r.request() == connect_request_bytes(address_model(*address), port),
    {
        SocksClient { stage: SocksStage::Start, request: connect_request(address, port), expect: 0 }
    }

    /// A negotiation for the target of a `CONNECT` request, written `host:port`, with
    /// an IPv6 host written bare (`::1:443`) or in brackets (`[::1]:443`).
    pub fn for_target(target: &[u8]) -> (r: Result<SocksClient, BridgeError>)
        ensures
            match host_port_of(target@, BridgeError::InvalidTargetAddress) {
                Err(e) => r == Err::<SocksClient, BridgeError>(e),
                Ok((h, p)) => match address_for(unbracketed(h)) {
                    Err(e) => r == Err::<SocksClient, BridgeError>(e),
                    Ok(a) => r is Ok && r->Ok_0.wf() && r->Ok_0.stage() == SocksStage::Start
                        && r->Ok_0.request() == connect_request_bytes(a, p),
                },
            },
    {
        let (host, port) = parse_host_port(target, BridgeError::InvalidTargetAddress)?;
        SocksClient::for_host(host.as_slice(), port)
    }

    /// A negotiation for a host and a port taken apart, the host as a URL gives it: an
    /// IPv6 literal may stand in brackets.
    pub fn for_host(host: &[u8], port: u16) -> (r: Result<SocksClient, BridgeError>)
        ensures
            match address_for(unbracketed(host@)) {
                Err(e) => r == Err::<SocksClient, BridgeError>(e),
                Ok(a) => r is Ok && r->Ok_0.wf() && r->Ok_0.stage() == SocksStage::Start
                    && r->Ok_0.request() == connect_request_bytes(a, port),
            },
    {
        let bare = strip_brackets(host);
        let address = SocksAddress::from_host(bare.as_slice())?;
        Ok(SocksClient::new(&address, port))
    }

    /// Begins the negotiation: send the greeting and read the two-byte method reply.
    pub fn start(&mut self) -> (r: SocksAction)
        requires
            old(self).wf(),
            old(self).stage() == SocksStage::Start,
        ensures
            final(self).wf(),
            final(self).stage() == SocksStage::AwaitMethod,
            final(self).expected() == 2,
            final(self).request() == old(self).request(),
            match r {
                SocksAction::Exchange { send, read } => send@ == greeting_bytes() && read == 2,
                _ => false,
            },
    {
        let mut g: Vec<u8> = Vec::new();
        g.push(0x05);
        g.push(0x01);
        g.push(0x00);
        assert(g@ =~= greeting_bytes());
        self.stage = SocksStage::AwaitMethod;
        self.expect = 2;
        SocksAction::Exchange { send: g, read: 2 }
    }

    /// Takes the bytes that the last action asked for and says what comes next. A reply
    /// that does not report success, at either stage, ends the negotiation with an error.
    pub fn receive(&mut self, reply: &[u8]) -> (r: SocksAction)
        requires
            old(self).wf(),
            old(self).stage() == SocksStage::AwaitMethod || old(self).stage()
                == SocksStage::AwaitReply || old(self).stage() == SocksStage::AwaitTail,
            reply@.len() == old(self).expected(),
        ensures
            final(self).wf(),
            final(self).request() == old(self).request(),
            old(self).stage() == SocksStage::AwaitMethod ==> if reply@[0] == 0x05 && reply@[1]
                == 0x00 {
                final(self).stage() == SocksStage::AwaitReply && final(self).expected() == 10
                    && match r {
                    SocksAction::Exchange { send, read } => send@ == old(self).request() && read
                        == 10,
                    _ => false,
                }
            } else {
                final(self).stage() == SocksStage::Failed && r == SocksAction::Failed(
                    BridgeError::SocksHandshake { version: reply@[0], method: reply@[1] },
                )
            },
            old(self).stage() == SocksStage::AwaitReply ==> if reply@[0] == 0x05 && reply@[1]
                == 0x00 {
                if reply_tail(reply@[3], reply@[4]) == 0 {
                    final(self).stage() == SocksStage::Established && r == SocksAction::Connected
                } else {
                    final(self).stage() == SocksStage::AwaitTail && final(self).expected()
                        == reply_tail(reply@[3], reply@[4]) && r == SocksAction::Read(
                        reply_tail(reply@[3], reply@[4]) as usize,
                    )
                }
            } else {
                final(self).stage() == SocksStage::Failed && r == SocksAction::Failed(
                    BridgeError::SocksConnect { version: reply@[0], reply: reply@[1] },
                )
            },
            old(self).stage() == SocksStage::AwaitTail ==> final(self).stage()
                == SocksStage::Established && r == SocksAction::Connected,
    {
        match self.stage {
            SocksStage::AwaitMethod => {
                if reply[0] == 0x05 && reply[1] == 0x00 {
                    self.stage = SocksStage::AwaitReply;
                    self.expect = 10;
                    let send = copy_range(self.request.as_slice(), 0, self.request.len());
                    assert(send@ =~= self.request@);
                    SocksAction::Exchange { send, read: 10 }
                } else {
                    self.stage = SocksStage::Failed;
                    SocksAction::Failed(
                        BridgeError::SocksHandshake { version: reply[0], method: reply[1] },
                    )
                }
            },
            SocksStage::AwaitReply => {
                if reply[0] == 0x05 && reply[1] == 0x00 {
                    let tail: usize = if reply[3] == 0x04 {
                        12
                    } else if reply[3] == 0x03 {
                        reply[4] as usize + 1
                    } else {
                        0
                    };
                    if tail == 0 {
                        self.stage = SocksStage::Established;
                        SocksAction::Connected
                    } else {
                        self.stage = SocksStage::AwaitTail;
                        self.expect = tail;
                        SocksAction::Read(tail)
                    }
                } else {
                    self.stage = SocksStage::Failed;
                    SocksAction::Failed(
                        BridgeError::SocksConnect { version: reply[0], reply: reply[1] },
                    )
                }
            },
            _ => {
                self.stage = SocksStage::Established;
                SocksAction::Connected
            },
        }
    }
}

/// Host and port of the SOCKS proxy, from its `host:port` address.
pub fn proxy_endpoint(proxy: &[u8]) -> (r: Result<(Vec<u8>, u16), BridgeError>)
    ensures
        match r {
            Ok((h, p)) => host_port_of(proxy@, BridgeError::InvalidProxyAddress) == Ok::<
                (Seq<u8>, u16),
                BridgeError,
            >((h@, p)),
            Err(e) => host_port_of(proxy@, BridgeError::InvalidProxyAddress) == Err::<
                (Seq<u8>, u16),
                BridgeError,
            >(e),
        },
{
    parse_host_port(proxy, BridgeError::InvalidProxyAddress)
}

} // verus!
