//! Three-way response classification.
//!
//! Given a status code and the raw body bytes, a response resolves into
//! exactly one outcome: a typed success payload, a structured domain-level
//! error, or a malformed payload that keeps the raw bytes for postmortem
//! reading. Transport failures are a fourth outcome produced by the caller
//! that drives the connection, never by classification itself.

use crate::central_ledger::participants::{
    callback_url_rel, callback_url_shape, new_participant_limit_rel, new_participant_limit_shape,
    participant_rel, participant_shape, CallbackUrl, DfspAccount, dfsp_account_rel,
    dfsp_account_shape, NewParticipantLimit, Participant,
};
use crate::common::{NoBody, ResponseTag};
use crate::json::{
    get_field, get_str, jarr, jarr_view, jget, jget_str, json_parse, json_view, lemma_jarr_view,
    spec_json, Json, JsonVal,
};
use crate::settlement::settlement::{
    settlement_rel, settlement_shape, Settlement,
};
use crate::settlement::settlement_windows::{
    window_rel, window_shape, SettlementWindow,
};
use vstd::prelude::*;

verus! {

/// The structured error a domain-level rejection carries:
/// `{ "errorInformation": { "errorCode": ..., "errorDescription": ... } }`.
#[derive(Debug, Clone)]
pub struct ErrorInformation {
    pub error_code: String,
    pub error_description: String,
}

/// What kind of transport fault broke a call.
#[derive(Debug, Clone, Copy, PartialEq, Eq, Structural)]
pub enum TransportFailureKind {
    /// The connection could not be established.
    Connect,
    /// The connection broke before a full response was received.
    Connection,
}

/// The decoded payload of a successful response, matching the request's
/// expected response tag.
#[derive(Debug)]
pub enum ResponsePayload {
    NoBody(NoBody),
    Participant(Participant),
    Participants(Vec<Participant>),
    DfspAccounts(Vec<DfspAccount>),
    CallbackUrls(Vec<CallbackUrl>),
    ParticipantLimits(Vec<NewParticipantLimit>),
    Settlement(Settlement),
    Settlements(Vec<Settlement>),
    SettlementWindow(SettlementWindow),
    SettlementWindows(Vec<SettlementWindow>),
}

/// Exactly one outcome per call.
#[derive(Debug)]
pub enum ResponseOutcome {
    /// A success status with a body that decodes as the expected payload.
    Success(ResponsePayload),
    /// A well-formed error envelope returned by the remote platform.
    DomainError(ErrorInformation),
    /// A connection-level fault, raised by the dispatcher before any
    /// classification.
    TransportFailure(TransportFailureKind, String),
    /// Bytes that match neither the expected payload nor the envelope;
    /// the raw bytes are kept with a diagnostic.
    MalformedPayload(Vec<u8>, String),
}

/// The wire error envelope carries both fields under `errorInformation`.
pub open spec fn envelope_shape(j: JsonVal) -> bool {
    match get_field(j, "errorInformation"@) {
        Some(e) => get_str(e, "errorCode"@) is Some && get_str(e, "errorDescription"@) is Some,
        None => false,
    }
}

pub open spec fn envelope_rel(e: ErrorInformation, j: JsonVal) -> bool {
    match get_field(j, "errorInformation"@) {
        Some(inner) => get_str(inner, "errorCode"@) == Some(e.error_code@) && get_str(
            inner,
            "errorDescription"@,
        ) == Some(e.error_description@),
        None => false,
    }
}

/// The body bytes spell a well-formed error envelope.
pub open spec fn envelope_ok(body: Seq<u8>) -> bool {
    match spec_json(body) {
        Some(j) => envelope_shape(j),
        None => false,
    }
}

pub open spec fn envelope_body_rel(e: ErrorInformation, body: Seq<u8>) -> bool {
    match spec_json(body) {
        Some(j) => envelope_rel(e, j),
        None => false,
    }
}

impl ErrorInformation {
    /// Reads the envelope out of a parsed body.
    pub fn from_json(j: &Json) -> (r: Option<ErrorInformation>)
        ensures
            r is Some <==> envelope_shape(j@),
            r matches Some(e) ==> envelope_rel(e, j@),
    {
        let inner = match jget(j, "errorInformation") {
            Some(v) => v,
            None => {
                return None;
            },
        };
        let code = match jget_str(inner, "errorCode") {
            Some(s) => s,
            None => {
                return None;
            },
        };
        let desc = match jget_str(inner, "errorDescription") {
            Some(s) => s,
            None => {
                return None;
            },
        };
        Some(ErrorInformation { error_code: code, error_description: desc })
    }
}

/// A JSON array all of whose items have a record shape, and the relation
/// between a decoded vector and such an array, one pair per record type.
pub open spec fn participants_list_shape(j: JsonVal) -> bool {
    j matches JsonVal::Arr(vs) && forall|i: int|
        0 <= i < vs.len() ==> participant_shape(#[trigger] vs[i])
}

pub open spec fn participants_list_rel(xs: Vec<Participant>, j: JsonVal) -> bool {
    j matches JsonVal::Arr(vs) && xs@.len() == vs.len() && forall|i: int|
        0 <= i < vs.len() ==> participant_rel(#[trigger] xs@[i], vs[i])
}

pub open spec fn dfsp_accounts_list_shape(j: JsonVal) -> bool {
    j matches JsonVal::Arr(vs) && forall|i: int|
        0 <= i < vs.len() ==> dfsp_account_shape(#[trigger] vs[i])
}

pub open spec fn dfsp_accounts_list_rel(xs: Vec<DfspAccount>, j: JsonVal) -> bool {
    j matches JsonVal::Arr(vs) && xs@.len() == vs.len() && forall|i: int|
        0 <= i < vs.len() ==> dfsp_account_rel(#[trigger] xs@[i], vs[i])
}

pub open spec fn callback_urls_list_shape(j: JsonVal) -> bool {
    j matches JsonVal::Arr(vs) && forall|i: int|
        0 <= i < vs.len() ==> callback_url_shape(#[trigger] vs[i])
}

pub open spec fn callback_urls_list_rel(xs: Vec<CallbackUrl>, j: JsonVal) -> bool {
    j matches JsonVal::Arr(vs) && xs@.len() == vs.len() && forall|i: int|
        0 <= i < vs.len() ==> callback_url_rel(#[trigger] xs@[i], vs[i])
}

pub open spec fn participant_limits_list_shape(j: JsonVal) -> bool {
    j matches JsonVal::Arr(vs) && forall|i: int|
        0 <= i < vs.len() ==> new_participant_limit_shape(#[trigger] vs[i])
}

pub open spec fn participant_limits_list_rel(xs: Vec<NewParticipantLimit>, j: JsonVal) -> bool {
    j matches JsonVal::Arr(vs) && xs@.len() == vs.len() && forall|i: int|
        0 <= i < vs.len() ==> new_participant_limit_rel(#[trigger] xs@[i], vs[i])
}

pub open spec fn settlements_list_shape(j: JsonVal) -> bool {
    j matches JsonVal::Arr(vs) && forall|i: int|
        0 <= i < vs.len() ==> settlement_shape(#[trigger] vs[i])
}

pub open spec fn settlements_list_rel(xs: Vec<Settlement>, j: JsonVal) -> bool {
    j matches JsonVal::Arr(vs) && xs@.len() == vs.len() && forall|i: int|
        0 <= i < vs.len() ==> settlement_rel(#[trigger] xs@[i], vs[i])
}

pub open spec fn windows_list_shape(j: JsonVal) -> bool {
    j matches JsonVal::Arr(vs) && forall|i: int|
        0 <= i < vs.len() ==> window_shape(#[trigger] vs[i])
}

pub open spec fn windows_list_rel(xs: Vec<SettlementWindow>, j: JsonVal) -> bool {
    j matches JsonVal::Arr(vs) && xs@.len() == vs.len() && forall|i: int|
        0 <= i < vs.len() ==> window_rel(#[trigger] xs@[i], vs[i])
}

/// The body bytes decode as the payload a tag expects: an empty body for
/// `NoBody`, else a JSON document of the tag's shape.
pub open spec fn payload_ok(tag: ResponseTag, body: Seq<u8>) -> bool {
    match tag {
        ResponseTag::NoBody => body.len() == 0,
        ResponseTag::Participant => match spec_json(body) {
            Some(j) => participant_shape(j),
            None => false,
        },
        ResponseTag::Participants => match spec_json(body) {
            Some(j) => participants_list_shape(j),
            None => false,
        },
        ResponseTag::DfspAccounts => match spec_json(body) {
            Some(j) => dfsp_accounts_list_shape(j),
            None => false,
        },
        ResponseTag::CallbackUrls => match spec_json(body) {
            Some(j) => callback_urls_list_shape(j),
            None => false,
        },
        ResponseTag::ParticipantLimits => match spec_json(body) {
            Some(j) => participant_limits_list_shape(j),
            None => false,
        },
        ResponseTag::Settlement => match spec_json(body) {
            Some(j) => settlement_shape(j),
            None => false,
        },
        ResponseTag::Settlements => match spec_json(body) {
            Some(j) => settlements_list_shape(j),
            None => false,
        },
        ResponseTag::SettlementWindow => match spec_json(body) {
            Some(j) => window_shape(j),
            None => false,
        },
        ResponseTag::SettlementWindows => match spec_json(body) {
            Some(j) => windows_list_shape(j),
            None => false,
        },
    }
}

/// How a decoded payload relates to the body it came from; it also pins
/// the payload's variant to the tag.
pub open spec fn payload_rel(tag: ResponseTag, p: ResponsePayload, body: Seq<u8>) -> bool {
    match tag {
        ResponseTag::NoBody => p is NoBody,
        ResponseTag::Participant => p matches ResponsePayload::Participant(x) && (match spec_json(body) {
            Some(j) => participant_rel(x, j),
            None => false,
        }),
        ResponseTag::Participants => p matches ResponsePayload::Participants(xs) && (match spec_json(body) {
            Some(j) => participants_list_rel(xs, j),
            None => false,
        }),
        ResponseTag::DfspAccounts => p matches ResponsePayload::DfspAccounts(xs) && (match spec_json(body) {
            Some(j) => dfsp_accounts_list_rel(xs, j),
            None => false,
        }),
        ResponseTag::CallbackUrls => p matches ResponsePayload::CallbackUrls(xs) && (match spec_json(body) {
            Some(j) => callback_urls_list_rel(xs, j),
            None => false,
        }),
        ResponseTag::ParticipantLimits => p matches ResponsePayload::ParticipantLimits(xs) && (match spec_json(body) {
            Some(j) => participant_limits_list_rel(xs, j),
            None => false,
        }),
        ResponseTag::Settlement => p matches ResponsePayload::Settlement(x) && (match spec_json(body) {
            Some(j) => settlement_rel(x, j),
            None => false,
        }),
        ResponseTag::Settlements => p matches ResponsePayload::Settlements(xs) && (match spec_json(body) {
            Some(j) => settlements_list_rel(xs, j),
            None => false,
        }),
        ResponseTag::SettlementWindow => p matches ResponsePayload::SettlementWindow(x) && (match spec_json(body) {
            Some(j) => window_rel(x, j),
            None => false,
        }),
        ResponseTag::SettlementWindows => p matches ResponsePayload::SettlementWindows(xs) && (match spec_json(body) {
            Some(j) => windows_list_rel(xs, j),
            None => false,
        }),
    }
}

/// Decodes the body of a success response under a tag.
fn decode_payload(tag: ResponseTag, body: &Vec<u8>) -> (r: Option<ResponsePayload>)
    ensures
        r is Some <==> payload_ok(tag, body@),
        r matches Some(p) ==> payload_rel(tag, p, body@),
{
    match tag {
        ResponseTag::NoBody => {
            if body.len() == 0 {
                Some(ResponsePayload::NoBody(NoBody))
            } else {
                None
            }
        },
        ResponseTag::Participant => {
            match json_parse(body) {
                Some(j) => match Participant::from_json(&j) {
                    Some(p) => Some(ResponsePayload::Participant(p)),
                    None => None,
                },
                None => None,
            }
        },
        ResponseTag::Participants => {
            match json_parse(body) {
                Some(j) => match decode_participants(&j) {
                    Some(xs) => Some(ResponsePayload::Participants(xs)),
                    None => None,
                },
                None => None,
            }
        },
        ResponseTag::DfspAccounts => {
            match json_parse(body) {
                Some(j) => match decode_dfsp_accounts(&j) {
                    Some(xs) => Some(ResponsePayload::DfspAccounts(xs)),
                    None => None,
                },
                None => None,
            }
        },
        ResponseTag::CallbackUrls => {
            match json_parse(body) {
                Some(j) => match decode_callback_urls(&j) {
                    Some(xs) => Some(ResponsePayload::CallbackUrls(xs)),
                    None => None,
                },
                None => None,
            }
        },
        ResponseTag::ParticipantLimits => {
            match json_parse(body) {
                Some(j) => match decode_participant_limits(&j) {
                    Some(xs) => Some(ResponsePayload::ParticipantLimits(xs)),
                    None => None,
                },
                None => None,
            }
        },
        ResponseTag::Settlement => {
            match json_parse(body) {
                Some(j) => match Settlement::from_json(&j) {
                    Some(s) => Some(ResponsePayload::Settlement(s)),
                    None => None,
                },
                None => None,
            }
        },
        ResponseTag::Settlements => {
            match json_parse(body) {
                Some(j) => match decode_settlements(&j) {
                    Some(xs) => Some(ResponsePayload::Settlements(xs)),
                    None => None,
                },
                None => None,
            }
        },
        ResponseTag::SettlementWindow => {
            match json_parse(body) {
                Some(j) => match SettlementWindow::from_json(&j) {
                    Some(w) => Some(ResponsePayload::SettlementWindow(w)),
                    None => None,
                },
                None => None,
            }
        },
        ResponseTag::SettlementWindows => {
            match json_parse(body) {
                Some(j) => match decode_settlement_windows(&j) {
                    Some(xs) => Some(ResponsePayload::SettlementWindows(xs)),
                    None => None,
                },
                None => None,
            }
        },
    }
}

/// Classifies one response: success statuses decode under the expected
/// tag, error statuses decode as the domain error envelope, and any
/// status outside both ranges is kept as a malformed payload with its
/// raw bytes. No status code leads to an unhandled case.
pub fn classify(tag: ResponseTag, status: u16, body: Vec<u8>) -> (r: ResponseOutcome)
    ensures
        200 <= status < 300 ==> match r {
            ResponseOutcome::Success(p) => payload_ok(tag, body@) && payload_rel(tag, p, body@),
            ResponseOutcome::MalformedPayload(bs, d) => bs@ == body@ && !payload_ok(tag, body@),
            _ => false,
        },
        400 <= status < 600 ==> match r {
            ResponseOutcome::DomainError(e) => envelope_ok(body@) && envelope_body_rel(e, body@),
            ResponseOutcome::MalformedPayload(bs, d) => bs@ == body@ && !envelope_ok(body@),
            _ => false,
        },
        !(200 <= status < 300) && !(400 <= status < 600) ==> (r matches
        ResponseOutcome::MalformedPayload(bs, d) && bs@ == body@),
{
    if 200 <= status && status < 300 {
        match decode_payload(tag, &body) {
            Some(p) => ResponseOutcome::Success(p),
            None => ResponseOutcome::MalformedPayload(
                body,
                "the body does not decode as the expected response".to_owned(),
            ),
        }
    } else if 400 <= status && status < 600 {
        match json_parse(&body) {
            Some(j) => match ErrorInformation::from_json(&j) {
                Some(e) => ResponseOutcome::DomainError(e),
                None => ResponseOutcome::MalformedPayload(
                    body,
                    "the body does not decode as the error envelope".to_owned(),
                ),
            },
            None => ResponseOutcome::MalformedPayload(
                body,
                "the body does not decode as the error envelope".to_owned(),
            ),
        }
    } else {
        ResponseOutcome::MalformedPayload(
            body,
            "status code outside the handled ranges".to_owned(),
        )
    }
}

/// Every status code up to 599 falls in exactly one of the three regions
/// classification handles — the success range, the error range, or the
/// defined gap — so classification yields exactly one outcome for every
/// status code and no code leads to an unhandled case.
pub proof fn lemma_status_partition(status: u16)
    requires
        status <= 599,
    ensures
        ({
            let success = 200 <= status < 300;
            let error = 400 <= status < 600;
            let gap = !(200 <= status < 300) && !(400 <= status < 600);
            &&& success || error || gap
            &&& success ==> !error && !gap
            &&& error ==> !success && !gap
            &&& gap ==> !success && !error
        }),
{
}

fn decode_participants(j: &Json) -> (r: Option<Vec<Participant>>)
    ensures
        (r is Some) <==> participants_list_shape(j@),
        r matches Some(xs) ==> participants_list_rel(xs, j@),
{
    let items = match jarr(j) {
        Some(items) => items,
        None => {
            return None;
        },
    };
    let ghost vs = jarr_view(*items, 0);
    proof {
        lemma_jarr_view(*items, 0);
    }
    let mut xs: Vec<Participant> = Vec::new();
    let mut idx: usize = 0;
    while idx < items.len()
        invariant
            0 <= idx <= items@.len(),
            vs == jarr_view(*items, 0),
            j@ == JsonVal::Arr(vs),
            vs.len() == items@.len(),
            forall|m: int| 0 <= m < items@.len() ==> #[trigger] vs[m] == json_view(items@[m]),
            xs@.len() == idx,
            forall|m: int|
                0 <= m < idx ==> participant_shape(#[trigger] vs[m]) && participant_rel(
                    xs@[m],
                    vs[m],
                ),
        decreases items@.len() - idx,
    {
        match Participant::from_json(&items[idx]) {
            Some(x) => {
                xs.push(x);
            },
            None => {
                proof {
                    assert(!participant_shape(vs[idx as int]));
                    if participants_list_shape(j@) {
                        assert(j@->Arr_0 == vs);
                        assert(participant_shape((j@->Arr_0)[idx as int]));
                        assert(false);
                    }
                }
                return None;
            },
        }
        idx += 1;
    }
    Some(xs)
}

fn decode_dfsp_accounts(j: &Json) -> (r: Option<Vec<DfspAccount>>)
    ensures
        (r is Some) <==> dfsp_accounts_list_shape(j@),
        r matches Some(xs) ==> dfsp_accounts_list_rel(xs, j@),
{
    let items = match jarr(j) {
        Some(items) => items,
        None => {
            return None;
        },
    };
    let ghost vs = jarr_view(*items, 0);
    proof {
        lemma_jarr_view(*items, 0);
    }
    let mut xs: Vec<DfspAccount> = Vec::new();
    let mut idx: usize = 0;
    while idx < items.len()
        invariant
            0 <= idx <= items@.len(),
            vs == jarr_view(*items, 0),
            j@ == JsonVal::Arr(vs),
            vs.len() == items@.len(),
            forall|m: int| 0 <= m < items@.len() ==> #[trigger] vs[m] == json_view(items@[m]),
            xs@.len() == idx,
            forall|m: int|
                0 <= m < idx ==> dfsp_account_shape(#[trigger] vs[m]) && dfsp_account_rel(
                    xs@[m],
                    vs[m],
                ),
        decreases items@.len() - idx,
    {
        match DfspAccount::from_json(&items[idx]) {
            Some(x) => {
                xs.push(x);
            },
            None => {
                proof {
                    assert(!dfsp_account_shape(vs[idx as int]));
                    if dfsp_accounts_list_shape(j@) {
                        assert(j@->Arr_0 == vs);
                        assert(dfsp_account_shape((j@->Arr_0)[idx as int]));
                        assert(false);
                    }
                }
                return None;
            },
        }
        idx += 1;
    }
    Some(xs)
}

fn decode_callback_urls(j: &Json) -> (r: Option<Vec<CallbackUrl>>)
    ensures
        (r is Some) <==> callback_urls_list_shape(j@),
        r matches Some(xs) ==> callback_urls_list_rel(xs, j@),
{
    let items = match jarr(j) {
        Some(items) => items,
        None => {
            return None;
        },
    };
    let ghost vs = jarr_view(*items, 0);
    proof {
        lemma_jarr_view(*items, 0);
    }
    let mut xs: Vec<CallbackUrl> = Vec::new();
    let mut idx: usize = 0;
    while idx < items.len()
        invariant
            0 <= idx <= items@.len(),
            vs == jarr_view(*items, 0),
            j@ == JsonVal::Arr(vs),
            vs.len() == items@.len(),
            forall|m: int| 0 <= m < items@.len() ==> #[trigger] vs[m] == json_view(items@[m]),
            xs@.len() == idx,
            forall|m: int|
                0 <= m < idx ==> callback_url_shape(#[trigger] vs[m]) && callback_url_rel(
                    xs@[m],
                    vs[m],
                ),
        decreases items@.len() - idx,
    {
        match CallbackUrl::from_json(&items[idx]) {
            Some(x) => {
                xs.push(x);
            },
            None => {
                proof {
                    assert(!callback_url_shape(vs[idx as int]));
                    if callback_urls_list_shape(j@) {
                        assert(j@->Arr_0 == vs);
                        assert(callback_url_shape((j@->Arr_0)[idx as int]));
                        assert(false);
                    }
                }
                return None;
            },
        }
        idx += 1;
    }
    Some(xs)
}

fn decode_participant_limits(j: &Json) -> (r: Option<Vec<NewParticipantLimit>>)
    ensures
        (r is Some) <==> participant_limits_list_shape(j@),
        r matches Some(xs) ==> participant_limits_list_rel(xs, j@),
{
    let items = match jarr(j) {
        Some(items) => items,
        None => {
            return None;
        },
    };
    let ghost vs = jarr_view(*items, 0);
    proof {
        lemma_jarr_view(*items, 0);
    }
    let mut xs: Vec<NewParticipantLimit> = Vec::new();
    let mut idx: usize = 0;
    while idx < items.len()
        invariant
            0 <= idx <= items@.len(),
            vs == jarr_view(*items, 0),
            j@ == JsonVal::Arr(vs),
            vs.len() == items@.len(),
            forall|m: int| 0 <= m < items@.len() ==> #[trigger] vs[m] == json_view(items@[m]),
            xs@.len() == idx,
            forall|m: int|
                0 <= m < idx ==> new_participant_limit_shape(#[trigger] vs[m])
                    && new_participant_limit_rel(xs@[m], vs[m]),
        decreases items@.len() - idx,
    {
        match NewParticipantLimit::from_json(&items[idx]) {
            Some(x) => {
                xs.push(x);
            },
            None => {
                proof {
                    assert(!new_participant_limit_shape(vs[idx as int]));
                    if participant_limits_list_shape(j@) {
                        assert(j@->Arr_0 == vs);
                        assert(new_participant_limit_shape((j@->Arr_0)[idx as int]));
                        assert(false);
                    }
                }
                return None;
            },
        }
        idx += 1;
    }
    Some(xs)
}

fn decode_settlements(j: &Json) -> (r: Option<Vec<Settlement>>)
    ensures
        (r is Some) <==> settlements_list_shape(j@),
        r matches Some(xs) ==> settlements_list_rel(xs, j@),
{
    let items = match jarr(j) {
        Some(items) => items,
        None => {
            return None;
        },
    };
    let ghost vs = jarr_view(*items, 0);
    proof {
        lemma_jarr_view(*items, 0);
    }
    let mut xs: Vec<Settlement> = Vec::new();
    let mut idx: usize = 0;
    while idx < items.len()
        invariant
            0 <= idx <= items@.len(),
            vs == jarr_view(*items, 0),
            j@ == JsonVal::Arr(vs),
            vs.len() == items@.len(),
            forall|m: int| 0 <= m < items@.len() ==> #[trigger] vs[m] == json_view(items@[m]),
            xs@.len() == idx,
            forall|m: int|
                0 <= m < idx ==> settlement_shape(#[trigger] vs[m]) && settlement_rel(
                    xs@[m],
                    vs[m],
                ),
        decreases items@.len() - idx,
    {
        match Settlement::from_json(&items[idx]) {
            Some(x) => {
                xs.push(x);
            },
            None => {
                proof {
                    assert(!settlement_shape(vs[idx as int]));
                    if settlements_list_shape(j@) {
                        assert(j@->Arr_0 == vs);
                        assert(settlement_shape((j@->Arr_0)[idx as int]));
                        assert(false);
                    }
                }
                return None;
            },
        }
        idx += 1;
    }
    Some(xs)
}

fn decode_settlement_windows(j: &Json) -> (r: Option<Vec<SettlementWindow>>)
    ensures
        (r is Some) <==> windows_list_shape(j@),
        r matches Some(xs) ==> windows_list_rel(xs, j@),
{
    let items = match jarr(j) {
        Some(items) => items,
        None => {
            return None;
        },
    };
    let ghost vs = jarr_view(*items, 0);
    proof {
        lemma_jarr_view(*items, 0);
    }
    let mut xs: Vec<SettlementWindow> = Vec::new();
    let mut idx: usize = 0;
    while idx < items.len()
        invariant
            0 <= idx <= items@.len(),
            vs == jarr_view(*items, 0),
            j@ == JsonVal::Arr(vs),
            vs.len() == items@.len(),
            forall|m: int| 0 <= m < items@.len() ==> #[trigger] vs[m] == json_view(items@[m]),
            xs@.len() == idx,
            forall|m: int|
                0 <= m < idx ==> window_shape(#[trigger] vs[m]) && window_rel(xs@[m], vs[m]),
        decreases items@.len() - idx,
    {
        match SettlementWindow::from_json(&items[idx]) {
            Some(x) => {
                xs.push(x);
            },
            None => {
                proof {
                    assert(!window_shape(vs[idx as int]));
                    if windows_list_shape(j@) {
                        assert(j@->Arr_0 == vs);
                        assert(window_shape((j@->Arr_0)[idx as int]));
                        assert(false);
                    }
                }
                return None;
            },
        }
        idx += 1;
    }
    Some(xs)
}

} // verus!
