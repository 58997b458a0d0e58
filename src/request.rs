//! From a request head to what the bridge does with it: a tunnel, or a rewritten
//! request for the origin server; and the replies the bridge writes itself.
use vstd::prelude::*;

use crate::error::BridgeError;
use crate::lines::{
    extract_host_header, first_line, first_line_of, host_header, join_crlf, kept_lines,
    lemma_kept_lines_filtered, opt_view, push_kept_lines, split_tokens, tokens, views,
};
use crate::text::{
    ascii_bytes, ascii_vec, contains, copy_range, has_prefix, has_substring, push_ascii,
    push_bytes, starts_with, starts_with_ci,
};

verus! {

/// The three tokens of a request line.
pub struct RequestLine {
    pub method: Vec<u8>,
    pub target: Vec<u8>,
    pub version: Vec<u8>,
}

/// Method, target and version of the request whose header text is `t`, when its first
/// line has exactly three tokens.
pub open spec fn request_line_of(t: Seq<u8>) -> Option<(Seq<u8>, Seq<u8>, Seq<u8>)> {
    let toks = tokens(first_line(t));
    if toks.len() == 3 {
        Some((toks[0], toks[1], toks[2]))
    } else {
        None
    }
}

/// Splits the first line of the header text into `METHOD TARGET VERSION`.
pub fn parse_request_line(t: &[u8]) -> (r: Result<RequestLine, BridgeError>)
    ensures
        match r {
            Ok(l) => request_line_of(t@) == Some((l.method@, l.target@, l.version@)),
            Err(e) => e == BridgeError::MalformedRequestLine && request_line_of(t@) is None,
        },
{
    let line = first_line_of(t);
    let mut toks = split_tokens(line.as_slice());
    if toks.len() != 3 {
        return Err(BridgeError::MalformedRequestLine);
    }
    let ghost all = views(toks@);
    assert(all[0] == toks@[0]@ && all[1] == toks@[1]@ && all[2] == toks@[2]@);
    let version = toks.pop().unwrap();
    let target = toks.pop().unwrap();
    let method = toks.pop().unwrap();
    Ok(RequestLine { method, target, version })
}

/// What the URL parser makes of a string: host, explicit port, scheme, path and query.
pub uninterp spec fn url_parts_of(s: Seq<u8>) -> Option<
    (Option<Seq<u8>>, Option<u16>, Seq<u8>, Seq<u8>, Option<Seq<u8>>),
>;

/// The components of a parsed absolute URL.
pub struct UrlParts {
    pub host: Option<Vec<u8>>,
    pub port: Option<u16>,
    pub scheme: Vec<u8>,
    pub path: Vec<u8>,
    pub query: Option<Vec<u8>>,
}

impl UrlParts {
    pub open spec fn model(&self) -> (
        Option<Seq<u8>>,
        Option<u16>,
        Seq<u8>,
        Seq<u8>,
        Option<Seq<u8>>,
    ) {
        (opt_view(self.host), self.port, self.scheme@, self.path@, opt_view(self.query))
    }
}

/// Relies on `url::Url::parse` and the accessors `host_str`, `port`, `scheme`, `path` and
/// `query` of the URL it returns: the result depends on the text alone.
#[verifier::external_body]
fn parse_url(s: &[u8]) -> (r: Option<UrlParts>)
    ensures
        match r {
            Some(p) => url_parts_of(s@) == Some(p.model()),
            None => url_parts_of(s@) is None,
        },
{
    match url::Url::parse(&String::from_utf8_lossy(s)) {
        Ok(u) => Some(UrlParts {
            host: u.host_str().map(|h| h.as_bytes().to_vec()),
            port: u.port(),
            scheme: u.scheme().as_bytes().to_vec(),
            path: u.path().as_bytes().to_vec(),
            query: u.query().map(|q| q.as_bytes().to_vec()),
        }),
        Err(_) => None,
    }
}

/// The UTF-8 text of a byte string, each invalid sequence replaced by U+FFFD.
pub uninterp spec fn lossy_utf8_of(b: Seq<u8>) -> Seq<u8>;

/// Relies on `String::from_utf8_lossy`: the result depends on the bytes alone, and
/// valid UTF-8 comes back unchanged.
#[verifier::external_body]
fn decode_lossy(b: &[u8]) -> (r: Vec<u8>)
    ensures
        r@ == lossy_utf8_of(b@),
        vstd::utf8::valid_utf8(b@) ==> r@ == b@,
{
    String::from_utf8_lossy(b).into_owned().into_bytes()
}

/// The scheme guessed for an origin-form request from the literal `Host` value.
pub open spec fn scheme_for_host(h: Seq<u8>) -> Seq<u8> {
    if contains(h, ascii_bytes(":443"@)) {
        ascii_bytes("https"@)
    } else {
        ascii_bytes("http"@)
    }
}

/// The text handed to the URL parser for a request target.
pub open spec fn url_input(target: Seq<u8>, text: Seq<u8>) -> Result<Seq<u8>, BridgeError> {
    if starts_with(target, ascii_bytes("http://"@)) || starts_with(
        target,
        ascii_bytes("https://"@),
    ) {
        Ok(target)
    } else {
        match host_header(text) {
            None => Err(BridgeError::MissingHostHeader),
            Some(h) => Ok(scheme_for_host(h) + ascii_bytes("://"@) + h + target),
        }
    }
}

/// Builds the absolute URL of a request target: the target itself when it is one,
/// else the scheme guessed from the `Host` header, the host, and the target.
pub fn absolute_url(target: &[u8], text: &[u8]) -> (r: Result<Vec<u8>, BridgeError>)
    ensures
        match r {
            Ok(u) => url_input(target@, text@) == Ok::<Seq<u8>, BridgeError>(u@),
            Err(e) => url_input(target@, text@) == Err::<Seq<u8>, BridgeError>(e),
        },
{
    proof {
        reveal_strlit("http://");
        reveal_strlit("https://");
        reveal_strlit(":443");
        reveal_strlit("https");
        reveal_strlit("http");
        reveal_strlit("://");
    }
    let http = ascii_vec("http://");
    let https = ascii_vec("https://");
    if has_prefix(target, http.as_slice()) || has_prefix(target, https.as_slice()) {
        let all = copy_range(target, 0, target.len());
        assert(all@ =~= target@);
        return Ok(all);
    }
    match extract_host_header(text) {
        None => Err(BridgeError::MissingHostHeader),
        Some(h) => {
            let tls = ascii_vec(":443");
            let mut u: Vec<u8> = if has_substring(h.as_slice(), tls.as_slice()) {
                ascii_vec("https")
            } else {
                ascii_vec("http")
            };
            push_ascii(&mut u, "://");
            push_bytes(&mut u, h.as_slice());
            push_bytes(&mut u, target);
            Ok(u)
        },
    }
}

/// The port used when the URL gives none: 443 for `https`, 80 otherwise.
pub open spec fn default_port(scheme: Seq<u8>) -> u16 {
    if scheme == ascii_bytes("https"@) {
        443
    } else {
        80
    }
}

/// The origin-form target: the path (`/` when empty), then `?` and the query if any.
pub open spec fn path_and_query(path: Seq<u8>, query: Option<Seq<u8>>) -> Seq<u8> {
    let p = if path.len() == 0 {
        seq![0x2fu8]
    } else {
        path
    };
    match query {
        Some(q) => p + seq![0x3fu8] + q,
        None => p,
    }
}

/// The request sent upstream: the origin-form request line, the forwarded header
/// lines, `Connection: close`, the blank line, and whatever body bytes came along.
pub open spec fn rewritten_request(
    method: Seq<u8>,
    target: Seq<u8>,
    version: Seq<u8>,
    text: Seq<u8>,
    trailing: Seq<u8>,
) -> Seq<u8> {
    method + seq![0x20u8] + target + seq![0x20u8] + version + seq![0x0du8, 0x0au8] + join_crlf(
        kept_lines(text),
    ) + ascii_bytes("Connection: close\r\n\r\n"@) + trailing
}

/// A request that goes upstream as rewritten bytes.
pub struct ForwardPlan {
    pub host: Vec<u8>,
    pub port: u16,
    pub version: Vec<u8>,
    pub request: Vec<u8>,
}

/// What to do with one client request.
pub enum RequestPlan {
    /// `CONNECT`: open a tunnel to `host:port`.
    Tunnel { target: Vec<u8> },
    /// Any other method: send the rewritten request to the origin server.
    Forward(ForwardPlan),
}

/// A request plan, in plain values.
pub enum PlanModel {
    Tunnel(Seq<u8>),
    Forward(Seq<u8>, u16, Seq<u8>, Seq<u8>),
}

pub open spec fn plan_model(p: RequestPlan) -> PlanModel {
    match p {
        RequestPlan::Tunnel { target } => PlanModel::Tunnel(target@),
        RequestPlan::Forward(f) => PlanModel::Forward(f.host@, f.port, f.version@, f.request@),
    }
}

pub open spec fn plan_result(r: Result<RequestPlan, BridgeError>) -> Result<PlanModel, BridgeError> {
    match r {
        Ok(p) => Ok(plan_model(p)),
        Err(e) => Err(e),
    }
}

/// The plan for a non-`CONNECT` request whose URL has the given components.
pub open spec fn forward_spec(
    method: Seq<u8>,
    version: Seq<u8>,
    parts: (Option<Seq<u8>>, Option<u16>, Seq<u8>, Seq<u8>, Option<Seq<u8>>),
    text: Seq<u8>,
    trailing: Seq<u8>,
) -> Result<PlanModel, BridgeError> {
    match parts.0 {
        None => Err(BridgeError::MissingUrlHost),
        Some(h) => Ok(
            PlanModel::Forward(
                h,
                match parts.1 {
                    Some(p) => p,
                    None => default_port(parts.2),
                },
                version,
                rewritten_request(
                    method,
                    path_and_query(parts.3, parts.4),
                    version,
                    text,
                    trailing,
                ),
            ),
        ),
    }
}

/// The plan for a request whose decoded header text is `text`, with `trailing` the
/// bytes that followed the header block.
pub open spec fn plan_from_text(text: Seq<u8>, trailing: Seq<u8>) -> Result<PlanModel, BridgeError> {
    match request_line_of(text) {
        None => Err(BridgeError::MalformedRequestLine),
        Some(line) => if line.0 == ascii_bytes("CONNECT"@) {
            Ok(PlanModel::Tunnel(line.1))
        } else {
            match url_input(line.1, text) {
                Err(e) => Err(e),
                Ok(u) => match url_parts_of(u) {
                    None => Err(BridgeError::InvalidUrl),
                    Some(parts) => forward_spec(line.0, line.2, parts, text, trailing),
                },
            }
        },
    }
}

/// The plan for a buffer whose header block is its first `end` bytes.
pub open spec fn plan_spec(raw: Seq<u8>, end: int) -> Result<PlanModel, BridgeError> {
    plan_from_text(lossy_utf8_of(raw.subrange(0, end)), raw.subrange(end, raw.len() as int))
}

/// Builds the origin-form request from the URL components.
pub fn forward_from_parts(
    method: &[u8],
    version: &[u8],
    parts: UrlParts,
    text: &[u8],
    trailing: &[u8],
) -> (r: Result<RequestPlan, BridgeError>)
    ensures
        plan_result(r) == forward_spec(method@, version@, parts.model(), text@, trailing@),
{
    proof {
        reveal_strlit("https");
        reveal_strlit("Connection: close\r\n\r\n");
    }
    let ghost model = parts.model();
    let UrlParts { host, port, scheme, path, query } = parts;
    let host = match host {
        None => {
            return Err(BridgeError::MissingUrlHost);
        },
        Some(h) => h,
    };
    let https = ascii_vec("https");
    let port: u16 = match port {
        Some(p) => p,
        None => {
            if has_prefix(scheme.as_slice(), https.as_slice()) && scheme.len() == https.len() {
                assert(scheme@ =~= scheme@.subrange(0, https@.len() as int));
                443
            } else {
                assert(scheme@.len() == https@.len() ==> scheme@ =~= scheme@.subrange(
                    0,
                    https@.len() as int,
                ));
                80
            }
        },
    };
    let mut request: Vec<u8> = Vec::new();
    push_bytes(&mut request, method);
    request.push(0x20);
    let ghost before_target = request@;
    if path.len() == 0 {
        request.push(0x2f);
    } else {
        push_bytes(&mut request, path.as_slice());
    }
    match &query {
        Some(q) => {
            request.push(0x3f);
            push_bytes(&mut request, q.as_slice());
        },
        None => {},
    }
    assert(request@ =~= before_target + path_and_query(model.3, model.4));
    request.push(0x20);
    push_bytes(&mut request, version);
    request.push(0x0d);
    request.push(0x0a);
    push_kept_lines(&mut request, text);
    push_ascii(&mut request, "Connection: close\r\n\r\n");
    push_bytes(&mut request, trailing);
    assert(request@ =~= rewritten_request(
        method@,
        path_and_query(model.3, model.4),
        version@,
        text@,
        trailing@,
    ));
    let v = copy_range(version, 0, version.len());
    assert(v@ =~= version@);
    Ok(RequestPlan::Forward(ForwardPlan { host, port, version: v, request }))
}

/// Decides what to do with a request from its decoded header text and the bytes that
/// followed the header block.
pub fn plan_from_decoded(text: &[u8], trailing: &[u8]) -> (r: Result<RequestPlan, BridgeError>)
    ensures
        plan_result(r) == plan_from_text(text@, trailing@),
{
    proof {
        reveal_strlit("CONNECT");
    }
    let line = parse_request_line(text)?;
    let connect = ascii_vec("CONNECT");
    if has_prefix(line.method.as_slice(), connect.as_slice()) && line.method.len()
        == connect.len() {
        assert(line.method@ =~= line.method@.subrange(0, connect@.len() as int));
        return Ok(RequestPlan::Tunnel { target: line.target });
    }
    assert(line.method@.len() == connect@.len() ==> line.method@ =~= line.method@.subrange(
        0,
        connect@.len() as int,
    ));
    let u = absolute_url(line.target.as_slice(), text)?;
    match parse_url(u.as_slice()) {
        None => Err(BridgeError::InvalidUrl),
        Some(parts) => forward_from_parts(
            line.method.as_slice(),
            line.version.as_slice(),
            parts,
            text,
            trailing,
        ),
    }
}

/// Decides what to do with a request whose header block is the first `end` bytes of
/// `raw`: the header block is decoded as UTF-8 (invalid sequences replaced) and the
/// bytes after it are kept as they are.
pub fn plan_request(raw: &[u8], end: usize) -> (r: Result<RequestPlan, BridgeError>)
    requires
        end <= raw@.len(),
    ensures
        plan_result(r) == plan_spec(raw@, end as int),
{
    let head = copy_range(raw, 0, end);
    let text = decode_lossy(head.as_slice());
    let trailing = copy_range(raw, end, raw.len());
    plan_from_decoded(text.as_slice(), trailing.as_slice())
}

/// A request with any method but `CONNECT`, whose URL names a host, goes upstream as
/// one rewritten request: the origin-form request line `METHOD PATH[?QUERY] VERSION`,
/// then the client's header lines minus every `Connection:` and `Proxy-*` line, then
/// `Connection: close` and the blank line, then the body bytes already read.
pub proof fn lemma_forward_request_shape(text: Seq<u8>, trailing: Seq<u8>)
    requires
        request_line_of(text) is Some,
        (request_line_of(text)->0).0 != ascii_bytes("CONNECT"@),
        url_input((request_line_of(text)->0).1, text) is Ok,
        url_parts_of(url_input((request_line_of(text)->0).1, text)->Ok_0) is Some,
        (url_parts_of(url_input((request_line_of(text)->0).1, text)->Ok_0)->0).0 is Some,
    ensures
        ({
            let line = request_line_of(text)->0;
            let parts = url_parts_of(url_input(line.1, text)->Ok_0)->0;
            let headers = kept_lines(text);
            &&& plan_from_text(text, trailing) == Ok::<PlanModel, BridgeError>(
                PlanModel::Forward(
                    parts.0->0,
                    if parts.1 is Some {
                        parts.1->0
                    } else {
                        default_port(parts.2)
                    },
                    line.2,
                    line.0 + seq![0x20u8] + path_and_query(parts.3, parts.4) + seq![0x20u8]
                        + line.2 + seq![0x0du8, 0x0au8] + join_crlf(headers) + ascii_bytes(
                        "Connection: close\r\n\r\n"@,
                    ) + trailing,
                ),
            )
            &&& forall|k: int|
                0 <= k < headers.len() ==> !starts_with_ci(
                    #[trigger] headers[k],
                    ascii_bytes("connection:"@),
                ) && !starts_with_ci(headers[k], ascii_bytes("proxy-"@))
        }),
{
    lemma_kept_lines_filtered(text);
}

/// The reply to a `CONNECT` whose tunnel is open.
pub open spec fn established_response() -> Seq<u8> {
    ascii_bytes("HTTP/1.1 200 Connection Established\r\nConnection: close\r\n\r\n"@)
}

/// The reply to a `CONNECT` whose tunnel could not be opened.
pub open spec fn tunnel_failed_response() -> Seq<u8> {
    ascii_bytes("HTTP/1.1 502 Bad Gateway\r\nConnection: close\r\n\r\n"@)
}

/// The reply to a forwarded request whose upstream could not be reached, in the
/// client's own HTTP version, with `detail` describing the failure.
pub open spec fn forward_failed_response(version: Seq<u8>, detail: Seq<u8>) -> Seq<u8> {
    version + ascii_bytes(
        " 502 Bad Gateway\r\nContent-Type: text/plain\r\nConnection: close\r\n\r\nFailed to connect to target server: "@,
    ) + detail + seq![0x0du8, 0x0au8]
}

pub fn connect_established() -> (r: Vec<u8>)
    ensures
        r@ == established_response(),
{
    proof {
        reveal_strlit("HTTP/1.1 200 Connection Established\r\nConnection: close\r\n\r\n");
    }
    ascii_vec("HTTP/1.1 200 Connection Established\r\nConnection: close\r\n\r\n")
}

pub fn connect_failed() -> (r: Vec<u8>)
    ensures
        r@ == tunnel_failed_response(),
{
    proof {
        reveal_strlit("HTTP/1.1 502 Bad Gateway\r\nConnection: close\r\n\r\n");
    }
    ascii_vec("HTTP/1.1 502 Bad Gateway\r\nConnection: close\r\n\r\n")
}

/// The reply a `CONNECT` client gets once the SOCKS5 negotiation has ended, before any
/// byte is relayed: `200 Connection Established` when the tunnel is open, else `502`.
pub fn tunnel_reply(connected: bool) -> (r: Vec<u8>)
    ensures
        connected ==> r@ == established_response(),
        !connected ==> r@ == tunnel_failed_response(),
{
    if connected {
        connect_established()
    } else {
        connect_failed()
    }
}

pub fn forward_failed(version: &[u8], detail: &[u8]) -> (r: Vec<u8>)
    ensures
        r@ == forward_failed_response(version@, detail@),
{
    proof {
        reveal_strlit(
            " 502 Bad Gateway\r\nContent-Type: text/plain\r\nConnection: close\r\n\r\nFailed to connect to target server: ",
        );
    }
    let mut r: Vec<u8> = Vec::new();
    push_bytes(&mut r, version);
    push_ascii(
        &mut r,
        " 502 Bad Gateway\r\nContent-Type: text/plain\r\nConnection: close\r\n\r\nFailed to connect to target server: ",
    );
    push_bytes(&mut r, detail);
    r.push(0x0d);
    r.push(0x0a);
    r
}

} // verus!
