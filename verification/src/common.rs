//! Shared wire-level vocabulary: the HTTP method and logical target service
//! of an operation, the wire request shape every binding produces, the tag
//! fixing the expected response payload, and the caller error caught before
//! any network call.

use vstd::prelude::*;

verus! {

/// HTTP method of an operation.
#[derive(Debug, Clone, Copy, PartialEq, Eq, Structural)]
pub enum Method {
    GET,
    POST,
    PUT,
}

/// The wire spelling of a method.
pub open spec fn method_str(m: Method) -> Seq<char> {
    match m {
        Method::GET => "GET"@,
        Method::POST => "POST"@,
        Method::PUT => "PUT"@,
    }
}

impl Method {
    pub fn as_str(&self) -> (r: &'static str)
        ensures
            r@ == method_str(*self),
    {
        match self {
            Method::GET => "GET",
            Method::POST => "POST",
            Method::PUT => "PUT",
        }
    }
}

/// The two logical remote services addressed by this client.
#[derive(Debug, Clone, Copy, PartialEq, Eq, Structural)]
pub enum MojaloopService {
    CentralLedger,
    CentralSettlement,
}

/// The empty payload of operations whose success response has no body.
#[derive(Debug, Clone, Copy, PartialEq, Eq, Structural)]
pub struct NoBody;

/// Which typed payload a successful response decodes into.
#[derive(Debug, Clone, Copy, PartialEq, Eq, Structural)]
pub enum ResponseTag {
    NoBody,
    Participant,
    Participants,
    DfspAccounts,
    CallbackUrls,
    ParticipantLimits,
    Settlement,
    Settlements,
    SettlementWindow,
    SettlementWindows,
}

/// A wire-ready request: everything the dispatcher needs for one call, and
/// the tag under which the response will be decoded.
#[derive(Debug)]
pub struct WireRequest {
    pub method: Method,
    pub service: MojaloopService,
    pub path: String,
    pub body: Option<String>,
    pub response_tag: ResponseTag,
}

/// A caller error detected before any network call is made.
#[derive(Debug, Clone, Copy, PartialEq, Eq, Structural)]
pub enum CallerConstructionError {
    /// A filtered list operation was built with no filter at all; the
    /// remote API rejects an unconstrained list request.
    EmptyQueryParameterSet,
}

impl CallerConstructionError {
    pub fn describe(&self) -> (r: &'static str)
        ensures
            r@ == "at least one query parameter is required"@,
    {
        "at least one query parameter is required"
    }
}

/// The bytes of one serialized HTTP/1.1 request: start line, the two fixed
/// JSON headers, the body's content length, and the body.
pub open spec fn raw_request(w: WireRequest) -> Seq<u8> {
    let body: Seq<u8> = match w.body {
        Some(b) => vstd::utf8::encode_utf8(b@),
        None => Seq::empty(),
    };
    vstd::utf8::encode_utf8(method_str(w.method)) + vstd::utf8::encode_utf8(" "@)
        + vstd::utf8::encode_utf8(w.path@) + vstd::utf8::encode_utf8(
        " HTTP/1.1\r\ncontent-type: application/json\r\naccept: application/json\r\ncontent-length:"@,
    ) + vstd::utf8::encode_utf8(crate::text::spec_dec(body.len())) + vstd::utf8::encode_utf8(
        "\r\n\r\n"@,
    ) + body
}

/// Serializes one request for the wire.
pub fn req_to_raw_http(req: &WireRequest) -> (r: Vec<u8>)
    ensures
        r@ == raw_request(*req),
{
    let mut out: Vec<u8> = Vec::new();
    out.extend_from_slice(req.method.as_str().as_bytes());
    out.extend_from_slice(" ".as_bytes());
    out.extend_from_slice(req.path.as_str().as_bytes());
    out.extend_from_slice(
        " HTTP/1.1\r\ncontent-type: application/json\r\naccept: application/json\r\ncontent-length:".as_bytes(),
    );
    let body_bytes: Vec<u8> = match &req.body {
        Some(b) => b.as_str().as_bytes_vec(),
        None => Vec::new(),
    };
    out.extend_from_slice(crate::text::u64_to_dec(body_bytes.len() as u64).as_str().as_bytes());
    out.extend_from_slice("\r\n\r\n".as_bytes());
    out.extend_from_slice(body_bytes.as_slice());
    proof {
        assert(out@ =~= raw_request(*req));
    }
    out
}

/// Why a raw HTTP response head could not be read.
#[derive(Debug, Clone, Copy, PartialEq, Eq, Structural)]
pub enum HeadParseError {
    /// The bytes hold only part of a head.
    Partial,
    /// The bytes are not a valid response head.
    Invalid,
}

/// What the head parse finds in a raw response: the status code and the
/// byte offset of the body, or nothing when the bytes hold no complete
/// head. It names the result of `httparse::Response::parse`, which depends
/// on the bytes alone.
pub uninterp spec fn head_of(bs: Seq<u8>) -> Option<(u16, usize)>;

/// Reads the status code of a raw HTTP response head and how many bytes
/// the head spans.
///
/// Relies on `httparse::Response::parse` with its default configuration:
/// it depends on the input bytes alone; on `Complete(n)` it has read a
/// whole head of `n` input bytes whose status code has exactly three
/// digits, and the code is then set.
#[verifier::external_body]
fn parse_response_head(bs: &Vec<u8>) -> (r: Result<(u16, usize), HeadParseError>)
    ensures
        r matches Ok(p) ==> p.0 <= 999 && p.1 <= bs@.len() && head_of(bs@) == Some(p),
        r is Err ==> head_of(bs@) is None,
{
    let mut raw_headers = [httparse::EMPTY_HEADER; 64];
    let mut resp = httparse::Response::new(&mut raw_headers);
    match resp.parse(bs.as_slice()) {
        Ok(httparse::Status::Complete(n)) => match resp.code {
            Some(c) => Ok((c, n)),
            None => Err(HeadParseError::Invalid),
        },
        Ok(httparse::Status::Partial) => Err(HeadParseError::Partial),
        Err(_) => Err(HeadParseError::Invalid),
    }
}

/// The body bytes of a raw response whose head spans `n` bytes.
pub open spec fn raw_body(bs: Seq<u8>, n: usize) -> Seq<u8> {
    bs.subrange(n as int, bs.len() as int)
}

/// Reads a whole raw HTTP response and classifies it under a tag: the
/// head yields the status code, the rest is the body. When the bytes hold
/// no complete head, the whole input is kept as a malformed payload; when
/// they do, the outcome is the classification of the status code and body
/// the head parse found. The result is never a transport failure.
pub fn resp_from_raw_http(
    tag: ResponseTag,
    bs: &Vec<u8>,
) -> (r: crate::classify::ResponseOutcome)
    ensures
        !(r is TransportFailure),
        head_of(bs@) is None ==> (r matches crate::classify::ResponseOutcome::MalformedPayload(
            kept,
            d,
        ) && kept@ == bs@),
        head_of(bs@) matches Some(p) ==> (200 <= p.0 < 300 ==> match r {
            crate::classify::ResponseOutcome::Success(pl) => crate::classify::payload_ok(
                tag,
                raw_body(bs@, p.1),
            ) && crate::classify::payload_rel(tag, pl, raw_body(bs@, p.1)),
            crate::classify::ResponseOutcome::MalformedPayload(kept, d) => kept@ == raw_body(
                bs@,
                p.1,
            ) && !crate::classify::payload_ok(tag, raw_body(bs@, p.1)),
            _ => false,
        }),
        head_of(bs@) matches Some(p) ==> (400 <= p.0 < 600 ==> match r {
            crate::classify::ResponseOutcome::DomainError(e) => crate::classify::envelope_ok(
                raw_body(bs@, p.1),
            ) && crate::classify::envelope_body_rel(e, raw_body(bs@, p.1)),
            crate::classify::ResponseOutcome::MalformedPayload(kept, d) => kept@ == raw_body(
                bs@,
                p.1,
            ) && !crate::classify::envelope_ok(raw_body(bs@, p.1)),
            _ => false,
        }),
        head_of(bs@) matches Some(p) ==> (!(200 <= p.0 < 300) && !(400 <= p.0 < 600) ==> (r matches
        crate::classify::ResponseOutcome::MalformedPayload(kept, d) && kept@ == raw_body(
            bs@,
            p.1,
        ))),
{
    match parse_response_head(bs) {
        Ok((code, n)) => {
            let body_slice = vstd::slice::slice_subrange(bs.as_slice(), n, bs.len());
            let body = vstd::slice::slice_to_vec(body_slice);
            proof {
                assert(body@ == raw_body(bs@, n));
            }
            crate::classify::classify(tag, code, body)
        },
        Err(_) => crate::classify::ResponseOutcome::MalformedPayload(
            bs.clone(),
            "the response head does not parse".to_owned(),
        ),
    }
}

} // verus!
