//! Settlement window records and operations: reading windows, filtering
//! them, and closing one.

use crate::central_ledger::participants::{ledger_account_type_of, LedgerAccountType};
use crate::common::{CallerConstructionError, Method, MojaloopService, ResponseTag, WireRequest};
use crate::json::{
    get_opt, get_str, get_u64, jarr, jget_opt, jget_str, jget_u64, json_text, json_write,
    json_view, jarr_view, lemma_jarr_view, lemma_jobj_view, Json, JsonVal,
};
use crate::query::{str_eq, QueryParameterSet};
use crate::settlement::settlement::SettlementId;
use crate::text::{spec_dec, u64_to_dec};
use crate::types::{valid_currency, Currency, DateTime, FspId};
use vstd::prelude::*;

verus! {

/// The lifecycle state of a settlement window.
#[derive(Debug, Clone, Copy, PartialEq, Eq, Structural)]
pub enum SettlementWindowState {
    Open,
    Closed,
    PendingSettlement,
    Settled,
    Aborted,
    Processing,
}

pub open spec fn window_state_str(v: SettlementWindowState) -> Seq<char> {
    match v {
        SettlementWindowState::Open => "OPEN"@,
        SettlementWindowState::Closed => "CLOSED"@,
        SettlementWindowState::PendingSettlement => "PENDING_SETTLEMENT"@,
        SettlementWindowState::Settled => "SETTLED"@,
        SettlementWindowState::Aborted => "ABORTED"@,
        SettlementWindowState::Processing => "PROCESSING"@,
    }
}

pub open spec fn window_state_of(s: Seq<char>) -> Option<SettlementWindowState> {
    if s == "OPEN"@ {
        Some(SettlementWindowState::Open)
    } else if s == "CLOSED"@ {
        Some(SettlementWindowState::Closed)
    } else if s == "PENDING_SETTLEMENT"@ {
        Some(SettlementWindowState::PendingSettlement)
    } else if s == "SETTLED"@ {
        Some(SettlementWindowState::Settled)
    } else if s == "ABORTED"@ {
        Some(SettlementWindowState::Aborted)
    } else if s == "PROCESSING"@ {
        Some(SettlementWindowState::Processing)
    } else {
        None
    }
}

impl SettlementWindowState {
    pub fn wire_name(&self) -> (r: &'static str)
        ensures
            r@ == window_state_str(*self),
    {
        match self {
            SettlementWindowState::Open => "OPEN",
            SettlementWindowState::Closed => "CLOSED",
            SettlementWindowState::PendingSettlement => "PENDING_SETTLEMENT",
            SettlementWindowState::Settled => "SETTLED",
            SettlementWindowState::Aborted => "ABORTED",
            SettlementWindowState::Processing => "PROCESSING",
        }
    }

    pub fn from_wire(s: &str) -> (r: Option<SettlementWindowState>)
        ensures
            r == window_state_of(s@),
    {
        if str_eq(s, "OPEN") {
            Some(SettlementWindowState::Open)
        } else if str_eq(s, "CLOSED") {
            Some(SettlementWindowState::Closed)
        } else if str_eq(s, "PENDING_SETTLEMENT") {
            Some(SettlementWindowState::PendingSettlement)
        } else if str_eq(s, "SETTLED") {
            Some(SettlementWindowState::Settled)
        } else if str_eq(s, "ABORTED") {
            Some(SettlementWindowState::Aborted)
        } else if str_eq(s, "PROCESSING") {
            Some(SettlementWindowState::Processing)
        } else {
            None
        }
    }
}

/// Reading a window state's wire spelling back yields the value.
pub proof fn lemma_window_state_round_trip(v: SettlementWindowState)
    ensures
        window_state_of(window_state_str(v)) == Some(v),
{
    broadcast use vstd::string::group_string_axioms;

    reveal_strlit("OPEN");
    reveal_strlit("CLOSED");
    reveal_strlit("PENDING_SETTLEMENT");
    reveal_strlit("SETTLED");
    reveal_strlit("ABORTED");
    reveal_strlit("PROCESSING");
    assert("OPEN"@.len() == 4);
    assert("CLOSED"@.len() == 6);
    assert("PENDING_SETTLEMENT"@.len() == 18);
    assert("SETTLED"@.len() == 7);
    assert("ABORTED"@.len() == 7);
    assert("PROCESSING"@.len() == 10);
    assert("ABORTED"@[0] != "SETTLED"@[0]);
}

/// A settlement window id.
#[derive(Debug, Clone, Copy, PartialEq, Eq, Structural)]
pub struct SettlementWindowId(pub u64);

/// A settlement window content entry id.
#[derive(Debug, Clone, Copy, PartialEq, Eq, Structural)]
pub struct SettlementWindowContentId(pub u64);

/// One content entry of a settlement window. Wire keys: `id`,
/// `settlementWindowId`, `state`, `ledgerAccountType`, `currencyId`,
/// `createdDate`, `changedDate`, `settlementId`.
#[derive(Debug, Clone)]
pub struct SettlementWindowContent {
    pub id: SettlementWindowContentId,
    pub settlement_window_id: Option<SettlementWindowId>,
    pub state: SettlementWindowState,
    pub ledger_account_type: LedgerAccountType,
    pub currency_id: Currency,
    pub created_date: DateTime,
    pub changed_date: Option<DateTime>,
    pub settlement_id: Option<SettlementId>,
}

pub open spec fn window_content_shape(j: JsonVal) -> bool {
    &&& get_u64(j, "id"@) is Some
    &&& match get_opt(j, "settlementWindowId"@) {
        Some(v) => v matches JsonVal::Num(t) && crate::json::spec_u64_of_num(t) is Some,
        None => true,
    }
    &&& match get_str(j, "state"@) {
        Some(s) => window_state_of(s) is Some,
        None => false,
    }
    &&& match get_str(j, "ledgerAccountType"@) {
        Some(s) => ledger_account_type_of(s) is Some,
        None => false,
    }
    &&& match get_str(j, "currencyId"@) {
        Some(s) => valid_currency(s),
        None => false,
    }
    &&& get_str(j, "createdDate"@) is Some
    &&& match get_opt(j, "changedDate"@) {
        Some(v) => v is Str,
        None => true,
    }
    &&& match get_opt(j, "settlementId"@) {
        Some(v) => v matches JsonVal::Num(t) && crate::json::spec_u64_of_num(t) is Some,
        None => true,
    }
}

pub open spec fn window_content_rel(c: SettlementWindowContent, j: JsonVal) -> bool {
    &&& get_u64(j, "id"@) == Some(c.id.0)
    &&& match get_opt(j, "settlementWindowId"@) {
        Some(v) => c.settlement_window_id matches Some(w) && v matches JsonVal::Num(t)
            && crate::json::spec_u64_of_num(t) == Some(w.0),
        None => c.settlement_window_id is None,
    }
    &&& match get_str(j, "state"@) {
        Some(s) => window_state_of(s) == Some(c.state),
        None => false,
    }
    &&& match get_str(j, "ledgerAccountType"@) {
        Some(s) => ledger_account_type_of(s) == Some(c.ledger_account_type),
        None => false,
    }
    &&& get_str(j, "currencyId"@) == Some(c.currency_id@)
    &&& get_str(j, "createdDate"@) == Some(c.created_date@)
    &&& match get_opt(j, "changedDate"@) {
        Some(v) => c.changed_date matches Some(d) && v == JsonVal::Str(d@),
        None => c.changed_date is None,
    }
    &&& match get_opt(j, "settlementId"@) {
        Some(v) => c.settlement_id matches Some(sid) && v matches JsonVal::Num(t)
            && crate::json::spec_u64_of_num(t) == Some(sid.0),
        None => c.settlement_id is None,
    }
}

impl SettlementWindowContent {
    pub fn from_json(j: &Json) -> (r: Option<SettlementWindowContent>)
        ensures
            r is Some <==> window_content_shape(j@),
            r matches Some(c) ==> window_content_rel(c, j@),
    {
        let id = match jget_u64(j, "id") {
            Some(n) => n,
            None => {
                return None;
            },
        };
        let swid = match jget_opt(j, "settlementWindowId") {
            Some(v) => match crate::json::jnum(v) {
                Some(t) => match crate::text::u64_from_dec(t.as_str()) {
                    Some(n) => Some(SettlementWindowId(n)),
                    None => {
                        return None;
                    },
                },
                None => {
                    return None;
                },
            },
            None => None,
        };
        let state = match jget_str(j, "state") {
            Some(s) => match SettlementWindowState::from_wire(s.as_str()) {
                Some(v) => v,
                None => {
                    return None;
                },
            },
            None => {
                return None;
            },
        };
        let lat = match jget_str(j, "ledgerAccountType") {
            Some(s) => match LedgerAccountType::from_wire(s.as_str()) {
                Some(v) => v,
                None => {
                    return None;
                },
            },
            None => {
                return None;
            },
        };
        let cur = match jget_str(j, "currencyId") {
            Some(s) => match Currency::from_code(s.as_str()) {
                Some(c) => c,
                None => {
                    return None;
                },
            },
            None => {
                return None;
            },
        };
        let created = match jget_str(j, "createdDate") {
            Some(s) => s,
            None => {
                return None;
            },
        };
        let changed = match jget_opt(j, "changedDate") {
            Some(v) => match crate::json::jstr(v) {
                Some(s) => Some(DateTime(s.clone())),
                None => {
                    return None;
                },
            },
            None => None,
        };
        let sid = match jget_opt(j, "settlementId") {
            Some(v) => match crate::json::jnum(v) {
                Some(t) => match crate::text::u64_from_dec(t.as_str()) {
                    Some(n) => Some(SettlementId(n)),
                    None => {
                        return None;
                    },
                },
                None => {
                    return None;
                },
            },
            None => None,
        };
        Some(
            SettlementWindowContent {
                id: SettlementWindowContentId(id),
                settlement_window_id: swid,
                state,
                ledger_account_type: lat,
                currency_id: cur,
                created_date: DateTime(created),
                changed_date: changed,
                settlement_id: sid,
            },
        )
    }
}

/// A settlement window, as `GET /v2/settlementWindows` returns it. Wire
/// keys: `settlementWindowId`, `reason`, `state`, `createdDate`,
/// `changedDate`, `content`.
#[derive(Debug, Clone)]
pub struct SettlementWindow {
    pub settlement_window_id: SettlementWindowId,
    pub reason: Option<String>,
    pub state: SettlementWindowState,
    pub created_date: DateTime,
    pub changed_date: Option<DateTime>,
    pub content: Option<Vec<SettlementWindowContent>>,
}

pub type SettlementWindows = Vec<SettlementWindow>;

pub open spec fn window_shape(j: JsonVal) -> bool {
    &&& get_u64(j, "settlementWindowId"@) is Some
    &&& match get_opt(j, "reason"@) {
        Some(v) => v is Str,
        None => true,
    }
    &&& match get_str(j, "state"@) {
        Some(s) => window_state_of(s) is Some,
        None => false,
    }
    &&& get_str(j, "createdDate"@) is Some
    &&& match get_opt(j, "changedDate"@) {
        Some(v) => v is Str,
        None => true,
    }
    &&& match get_opt(j, "content"@) {
        Some(v) => v matches JsonVal::Arr(vs) && forall|i: int|
            0 <= i < vs.len() ==> window_content_shape(#[trigger] vs[i]),
        None => true,
    }
}

pub open spec fn window_rel(w: SettlementWindow, j: JsonVal) -> bool {
    &&& get_u64(j, "settlementWindowId"@) == Some(w.settlement_window_id.0)
    &&& match get_opt(j, "reason"@) {
        Some(v) => w.reason matches Some(s) && v == JsonVal::Str(s@),
        None => w.reason is None,
    }
    &&& match get_str(j, "state"@) {
        Some(s) => window_state_of(s) == Some(w.state),
        None => false,
    }
    &&& get_str(j, "createdDate"@) == Some(w.created_date@)
    &&& match get_opt(j, "changedDate"@) {
        Some(v) => w.changed_date matches Some(d) && v == JsonVal::Str(d@),
        None => w.changed_date is None,
    }
    &&& match get_opt(j, "content"@) {
        Some(v) => {
            &&& w.content matches Some(cs)
            &&& v matches JsonVal::Arr(vs)
            &&& cs@.len() == vs.len()
            &&& forall|i: int| 0 <= i < vs.len() ==> window_content_rel(#[trigger] cs@[i], vs[i])
        },
        None => w.content is None,
    }
}

impl SettlementWindow {
    pub fn from_json(j: &Json) -> (r: Option<SettlementWindow>)
        ensures
            r is Some <==> window_shape(j@),
            r matches Some(w) ==> window_rel(w, j@),
    {
        let content: Option<Vec<SettlementWindowContent>> = match jget_opt(j, "content") {
            Some(v) => match jarr(v) {
                Some(items) => {
                    let ghost vs = jarr_view(*items, 0);
                    proof {
                        lemma_jarr_view(*items, 0);
                    }
                    let mut cs: Vec<SettlementWindowContent> = Vec::new();
                    let mut idx: usize = 0;
                    while idx < items.len()
                        invariant
                            0 <= idx <= items@.len(),
                            vs == jarr_view(*items, 0),
                            get_opt(j@, "content"@) == Some(JsonVal::Arr(vs)),
                            vs.len() == items@.len(),
                            forall|m: int|
                                0 <= m < items@.len() ==> #[trigger] vs[m] == json_view(
                                    items@[m],
                                ),
                            cs@.len() == idx,
                            forall|m: int|
                                0 <= m < idx ==> window_content_shape(#[trigger] vs[m])
                                    && window_content_rel(cs@[m], vs[m]),
                        decreases items@.len() - idx,
                    {
                        match SettlementWindowContent::from_json(&items[idx]) {
                            Some(c) => {
                                cs.push(c);
                            },
                            None => {
                                proof {
                                    assert(!window_content_shape(vs[idx as int]));
                                    if window_shape(j@) {
                                        assert(match get_opt(j@, "content"@) {
                                            Some(v) => v matches JsonVal::Arr(vs2) && forall|
                                                i: int,
                                            |
                                                0 <= i < vs2.len() ==> window_content_shape(
                                                    #[trigger] vs2[i],
                                                ),
                                            None => true,
                                        });
                                        assert(forall|i: int|
                                            0 <= i < vs.len() ==> window_content_shape(
                                                #[trigger] vs[i],
                                            ));
                                        assert(false);
                                    }
                                }
                                return None;
                            },
                        }
                        idx += 1;
                    }
                    Some(cs)
                },
                None => {
                    return None;
                },
            },
            None => None,
        };
        let swid = match jget_u64(j, "settlementWindowId") {
            Some(n) => n,
            None => {
                return None;
            },
        };
        let reason = match jget_opt(j, "reason") {
            Some(v) => match crate::json::jstr(v) {
                Some(s) => Some(s.clone()),
                None => {
                    return None;
                },
            },
            None => None,
        };
        let state = match jget_str(j, "state") {
            Some(s) => match SettlementWindowState::from_wire(s.as_str()) {
                Some(v) => v,
                None => {
                    return None;
                },
            },
            None => {
                return None;
            },
        };
        let created = match jget_str(j, "createdDate") {
            Some(s) => s,
            None => {
                return None;
            },
        };
        let changed = match jget_opt(j, "changedDate") {
            Some(v) => match crate::json::jstr(v) {
                Some(s) => Some(DateTime(s.clone())),
                None => {
                    return None;
                },
            },
            None => None,
        };
        Some(
            SettlementWindow {
                settlement_window_id: SettlementWindowId(swid),
                reason,
                state,
                created_date: DateTime(created),
                changed_date: changed,
                content,
            },
        )
    }
}

/// The one state in which a window can be put by closing it.
#[derive(Debug, Clone, Copy, PartialEq, Eq, Structural)]
pub enum SettlementWindowCloseState {
    Closed,
}

pub open spec fn close_state_str(v: SettlementWindowCloseState) -> Seq<char> {
    match v {
        SettlementWindowCloseState::Closed => "CLOSED"@,
    }
}

impl SettlementWindowCloseState {
    pub fn wire_name(&self) -> (r: &'static str)
        ensures
            r@ == close_state_str(*self),
    {
        "CLOSED"
    }

    /// The window state a closure drives the window towards.
    pub fn as_window_state(&self) -> (r: SettlementWindowState)
        ensures
            r == SettlementWindowState::Closed,
    {
        SettlementWindowState::Closed
    }
}

/// The body of a window closure. Wire keys: `state`, `reason`.
#[derive(Debug, Clone)]
pub struct SettlementWindowClosurePayload {
    pub state: SettlementWindowCloseState,
    pub reason: String,
}

pub open spec fn closure_payload_model(p: SettlementWindowClosurePayload) -> JsonVal {
    JsonVal::Obj(
        seq![
            ("state"@, JsonVal::Str(close_state_str(p.state))),
            ("reason"@, JsonVal::Str(p.reason@)),
        ],
    )
}

impl SettlementWindowClosurePayload {
    pub fn to_json(&self) -> (r: Json)
        ensures
            r@ == closure_payload_model(*self),
    {
        let mut ms: Vec<(String, Json)> = Vec::new();
        ms.push(("state".to_owned(), Json::Str(self.state.wire_name().to_owned())));
        ms.push(("reason".to_owned(), Json::Str(self.reason.clone())));
        let r = Json::Obj(ms);
        proof {
            lemma_jobj_view(r->Obj_0, 0);
            assert(r@->Obj_0 =~= closure_payload_model(*self)->Obj_0);
        }
        r
    }
}

/// Closes one settlement window.
#[derive(Debug, Clone)]
pub struct CloseSettlementWindow {
    pub id: SettlementWindowId,
    pub payload: SettlementWindowClosurePayload,
}

impl CloseSettlementWindow {
    /// POST `/v2/settlementWindows/{id}` with the closure body; a success
    /// response carries no body.
    pub fn to_wire(&self) -> (r: WireRequest)
        ensures
            r.method == Method::POST,
            r.service == MojaloopService::CentralSettlement,
            r.path@ == "/v2/settlementWindows/"@ + spec_dec(self.id.0 as nat),
            r.body matches Some(b) && b@ == json_text(closure_payload_model(self.payload)),
            r.response_tag == ResponseTag::NoBody,
    {
        let mut path = "/v2/settlementWindows/".to_owned();
        path.append(u64_to_dec(self.id.0).as_str());
        WireRequest {
            method: Method::POST,
            service: MojaloopService::CentralSettlement,
            path,
            body: Some(json_write(&self.payload.to_json())),
            response_tag: ResponseTag::NoBody,
        }
    }
}

/// Reads one settlement window.
#[derive(Debug, Clone)]
pub struct GetSettlementWindow {
    pub id: SettlementWindowId,
}

impl GetSettlementWindow {
    /// GET `/v2/settlementWindows/{id}`.
    pub fn to_wire(&self) -> (r: WireRequest)
        ensures
            r.method == Method::GET,
            r.service == MojaloopService::CentralSettlement,
            r.path@ == "/v2/settlementWindows/"@ + spec_dec(self.id.0 as nat),
            r.body is None,
            r.response_tag == ResponseTag::SettlementWindow,
    {
        let mut path = "/v2/settlementWindows/".to_owned();
        path.append(u64_to_dec(self.id.0).as_str());
        WireRequest {
            method: Method::GET,
            service: MojaloopService::CentralSettlement,
            path,
            body: None,
            response_tag: ResponseTag::SettlementWindow,
        }
    }
}

/// Lists settlement windows matching at least one filter.
#[derive(Debug, Clone)]
pub struct GetSettlementWindows {
    pub currency: Option<Currency>,
    pub participant_id: Option<FspId>,
    pub state: Option<SettlementWindowState>,
    pub from_date_time: Option<DateTime>,
    pub to_date_time: Option<DateTime>,
}

impl GetSettlementWindows {
    /// No filter at all was given.
    pub open spec fn is_unconstrained(&self) -> bool {
        &&& self.currency is None
        &&& self.participant_id is None
        &&& self.state is None
        &&& self.from_date_time is None
        &&& self.to_date_time is None
    }

    /// The query mapping this request denotes.
    pub open spec fn query_map(&self) -> Map<Seq<char>, Seq<char>> {
        let m0 = Map::<Seq<char>, Seq<char>>::empty();
        let m1 = match self.currency {
            Some(c) => m0.insert("currency"@, c@),
            None => m0,
        };
        let m2 = match self.participant_id {
            Some(p) => m1.insert("participantId"@, p@),
            None => m1,
        };
        let m3 = match self.state {
            Some(st) => m2.insert("state"@, window_state_str(st)),
            None => m2,
        };
        let m4 = match self.from_date_time {
            Some(d) => m3.insert("fromDateTime"@, d@),
            None => m3,
        };
        match self.to_date_time {
            Some(d) => m4.insert("toDateTime"@, d@),
            None => m4,
        }
    }

    /// GET `/v2/settlementWindows?{query}`. Building the request fails,
    /// before any network call, exactly when no filter was given.
    pub fn to_wire(&self) -> (r: Result<WireRequest, CallerConstructionError>)
        ensures
            r is Err <==> self.is_unconstrained(),
            r matches Err(e) ==> e == CallerConstructionError::EmptyQueryParameterSet,
            r matches Ok(w) ==> {
                &&& w.method == Method::GET
                &&& w.service == MojaloopService::CentralSettlement
                &&& w.body is None
                &&& w.response_tag == ResponseTag::SettlementWindows
                &&& exists|q: QueryParameterSet|
                    q.wf() && #[trigger] q@ == self.query_map() && w.path@
                        == "/v2/settlementWindows?"@ + q.encoded_spec()
            },
    {
        if self.currency.is_none() && self.participant_id.is_none() && self.state.is_none()
            && self.from_date_time.is_none() && self.to_date_time.is_none() {
            return Err(CallerConstructionError::EmptyQueryParameterSet);
        }
        let mut q = QueryParameterSet::new();
        if let Some(c) = &self.currency {
            q.insert("currency".to_owned(), c.code().to_owned());
        }
        if let Some(p) = &self.participant_id {
            q.insert("participantId".to_owned(), p.0.clone());
        }
        if let Some(st) = &self.state {
            q.insert("state".to_owned(), st.wire_name().to_owned());
        }
        if let Some(d) = &self.from_date_time {
            q.insert("fromDateTime".to_owned(), d.0.clone());
        }
        if let Some(d) = &self.to_date_time {
            q.insert("toDateTime".to_owned(), d.0.clone());
        }
        proof {
            assert(q@ =~= self.query_map());
        }
        let mut path = "/v2/settlementWindows?".to_owned();
        path.append(q.encode().as_str());
        let w = WireRequest {
            method: Method::GET,
            service: MojaloopService::CentralSettlement,
            path,
            body: None,
            response_tag: ResponseTag::SettlementWindows,
        };
        proof {
            assert(q.wf() && q@ == self.query_map() && w.path@ == "/v2/settlementWindows?"@
                + q.encoded_spec());
        }
        Ok(w)
    }
}

} // verus!
