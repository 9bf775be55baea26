//! Settlement records and operations: creating a settlement over closed
//! windows and listing settlements.

use crate::common::{CallerConstructionError, Method, MojaloopService, ResponseTag, WireRequest};
use crate::json::{
    get_arr, get_num, get_opt, get_str, get_u64, jarr, jget, jget_num, jget_opt, jget_str,
    jget_u64, json_text, json_view, json_write, jarr_view, lemma_jarr_view, lemma_jobj_view,
    Json, JsonVal,
};
use crate::query::{str_eq, QueryParameterSet};
use crate::settlement::settlement_windows::{
    window_content_rel, window_content_shape, window_state_of, window_state_str,
    SettlementWindowContent, SettlementWindowId, SettlementWindowState,
};
use crate::text::{spec_dec, u64_to_dec};
use crate::types::{valid_amount, valid_currency, Amount, Currency, DateTime, FspId};
use vstd::prelude::*;

verus! {

/// A settlement id.
#[derive(Debug, Clone, Copy, PartialEq, Eq, Structural)]
pub struct SettlementId(pub u64);

/// A participant id.
#[derive(Debug, Clone, Copy, PartialEq, Eq, Structural)]
pub struct ParticipantId(pub u64);

/// A participant currency (account) id.
#[derive(Debug, Clone, Copy, PartialEq, Eq, Structural)]
pub struct ParticipantCurrencyId(pub u64);

/// The lifecycle state of a settlement.
#[derive(Debug, Clone, Copy, PartialEq, Eq, Structural)]
pub enum SettlementState {
    PendingSettlement,
    PsTransfersRecorded,
    PsTransfersReserved,
    PsTransfersCommitted,
    Settling,
    Settled,
    Aborted,
}

pub open spec fn settlement_state_str(v: SettlementState) -> Seq<char> {
    match v {
        SettlementState::PendingSettlement => "PENDING_SETTLEMENT"@,
        SettlementState::PsTransfersRecorded => "PS_TRANSFERS_RECORDED"@,
        SettlementState::PsTransfersReserved => "PS_TRANSFERS_RESERVED"@,
        SettlementState::PsTransfersCommitted => "PS_TRANSFERS_COMMITTED"@,
        SettlementState::Settling => "SETTLING"@,
        SettlementState::Settled => "SETTLED"@,
        SettlementState::Aborted => "ABORTED"@,
    }
}

pub open spec fn settlement_state_of(s: Seq<char>) -> Option<SettlementState> {
    if s == "PENDING_SETTLEMENT"@ {
        Some(SettlementState::PendingSettlement)
    } else if s == "PS_TRANSFERS_RECORDED"@ {
        Some(SettlementState::PsTransfersRecorded)
    } else if s == "PS_TRANSFERS_RESERVED"@ {
        Some(SettlementState::PsTransfersReserved)
    } else if s == "PS_TRANSFERS_COMMITTED"@ {
        Some(SettlementState::PsTransfersCommitted)
    } else if s == "SETTLING"@ {
        Some(SettlementState::Settling)
    } else if s == "SETTLED"@ {
        Some(SettlementState::Settled)
    } else if s == "ABORTED"@ {
        Some(SettlementState::Aborted)
    } else {
        None
    }
}

impl SettlementState {
    pub fn wire_name(&self) -> (r: &'static str)
        ensures
            r@ == settlement_state_str(*self),
    {
        match self {
            SettlementState::PendingSettlement => "PENDING_SETTLEMENT",
            SettlementState::PsTransfersRecorded => "PS_TRANSFERS_RECORDED",
            SettlementState::PsTransfersReserved => "PS_TRANSFERS_RESERVED",
            SettlementState::PsTransfersCommitted => "PS_TRANSFERS_COMMITTED",
            SettlementState::Settling => "SETTLING",
            SettlementState::Settled => "SETTLED",
            SettlementState::Aborted => "ABORTED",
        }
    }

    pub fn from_wire(s: &str) -> (r: Option<SettlementState>)
        ensures
            r == settlement_state_of(s@),
    {
        if str_eq(s, "PENDING_SETTLEMENT") {
            Some(SettlementState::PendingSettlement)
        } else if str_eq(s, "PS_TRANSFERS_RECORDED") {
            Some(SettlementState::PsTransfersRecorded)
        } else if str_eq(s, "PS_TRANSFERS_RESERVED") {
            Some(SettlementState::PsTransfersReserved)
        } else if str_eq(s, "PS_TRANSFERS_COMMITTED") {
            Some(SettlementState::PsTransfersCommitted)
        } else if str_eq(s, "SETTLING") {
            Some(SettlementState::Settling)
        } else if str_eq(s, "SETTLED") {
            Some(SettlementState::Settled)
        } else if str_eq(s, "ABORTED") {
            Some(SettlementState::Aborted)
        } else {
            None
        }
    }
}

/// Reading a settlement state's wire spelling back yields the value.
pub proof fn lemma_settlement_state_round_trip(v: SettlementState)
    ensures
        settlement_state_of(settlement_state_str(v)) == Some(v),
{
    broadcast use vstd::string::group_string_axioms;

    reveal_strlit("PENDING_SETTLEMENT");
    reveal_strlit("PS_TRANSFERS_RECORDED");
    reveal_strlit("PS_TRANSFERS_RESERVED");
    reveal_strlit("PS_TRANSFERS_COMMITTED");
    reveal_strlit("SETTLING");
    reveal_strlit("SETTLED");
    reveal_strlit("ABORTED");
    assert("PENDING_SETTLEMENT"@.len() == 18);
    assert("PS_TRANSFERS_RECORDED"@.len() == 21);
    assert("PS_TRANSFERS_RESERVED"@.len() == 21);
    assert("PS_TRANSFERS_COMMITTED"@.len() == 22);
    assert("SETTLING"@.len() == 8);
    assert("SETTLED"@.len() == 7);
    assert("ABORTED"@.len() == 7);
    assert("PS_TRANSFERS_RESERVED"@[15] != "PS_TRANSFERS_RECORDED"@[15]);
    assert("ABORTED"@[0] != "SETTLED"@[0]);
}

/// A window as it appears inside a settlement. Wire keys: `id`, `reason`,
/// `state`, `createdDate`, `changedDate`, `content`.
#[derive(Debug, Clone)]
pub struct SettlementSettlementWindow {
    pub id: SettlementWindowId,
    pub reason: Option<String>,
    pub state: SettlementWindowState,
    pub created_date: DateTime,
    pub changed_date: Option<DateTime>,
    pub content: Option<Vec<SettlementWindowContent>>,
}

pub open spec fn settlement_window_entry_shape(j: JsonVal) -> bool {
    &&& get_u64(j, "id"@) is Some
    &&& match get_opt(j, "reason"@) {
        Some(v) => v is Str,
        None => true,
    }
    &&& match get_str(j, "state"@) {
        Some(s) => window_state_of(s) is Some,
        None => false,
    }
    &&& get_str(j, "createdDate"@) is Some
    &&& match get_opt(j, "changedDate"@) {
        Some(v) => v is Str,
        None => true,
    }
    &&& match get_opt(j, "content"@) {
        Some(v) => v matches JsonVal::Arr(vs) && forall|i: int|
            0 <= i < vs.len() ==> window_content_shape(#[trigger] vs[i]),
        None => true,
    }
}

pub open spec fn settlement_window_entry_rel(w: SettlementSettlementWindow, j: JsonVal) -> bool {
    &&& get_u64(j, "id"@) == Some(w.id.0)
    &&& match get_opt(j, "reason"@) {
        Some(v) => w.reason matches Some(s) && v == JsonVal::Str(s@),
        None => w.reason is None,
    }
    &&& match get_str(j, "state"@) {
        Some(s) => window_state_of(s) == Some(w.state),
        None => false,
    }
    &&& get_str(j, "createdDate"@) == Some(w.created_date@)
    &&& match get_opt(j, "changedDate"@) {
        Some(v) => w.changed_date matches Some(d) && v == JsonVal::Str(d@),
        None => w.changed_date is None,
    }
    &&& match get_opt(j, "content"@) {
        Some(v) => {
            &&& w.content matches Some(cs)
            &&& v matches JsonVal::Arr(vs)
            &&& cs@.len() == vs.len()
            &&& forall|i: int| 0 <= i < vs.len() ==> window_content_rel(#[trigger] cs@[i], vs[i])
        },
        None => w.content is None,
    }
}

impl SettlementSettlementWindow {
    pub fn from_json(j: &Json) -> (r: Option<SettlementSettlementWindow>)
        ensures
            r is Some <==> settlement_window_entry_shape(j@),
            r matches Some(w) ==> settlement_window_entry_rel(w, j@),
    {
        let content: Option<Vec<SettlementWindowContent>> = match jget_opt(j, "content") {
            Some(v) => match jarr(v) {
                Some(items) => {
                    let ghost vs = jarr_view(*items, 0);
                    proof {
                        lemma_jarr_view(*items, 0);
                    }
                    let mut cs: Vec<SettlementWindowContent> = Vec::new();
                    let mut idx: usize = 0;
                    while idx < items.len()
                        invariant
                            0 <= idx <= items@.len(),
                            vs == jarr_view(*items, 0),
                            get_opt(j@, "content"@) == Some(JsonVal::Arr(vs)),
                            vs.len() == items@.len(),
                            forall|m: int|
                                0 <= m < items@.len() ==> #[trigger] vs[m] == json_view(
                                    items@[m],
                                ),
                            cs@.len() == idx,
                            forall|m: int|
                                0 <= m < idx ==> window_content_shape(#[trigger] vs[m])
                                    && window_content_rel(cs@[m], vs[m]),
                        decreases items@.len() - idx,
                    {
                        match SettlementWindowContent::from_json(&items[idx]) {
                            Some(c) => {
                                cs.push(c);
                            },
                            None => {
                                proof {
                                    assert(!window_content_shape(vs[idx as int]));
                                    if settlement_window_entry_shape(j@) {
                                        assert(match get_opt(j@, "content"@) {
                                            Some(v) => v matches JsonVal::Arr(vs2) && forall|
                                                i: int,
                                            |
                                                0 <= i < vs2.len() ==> window_content_shape(
                                                    #[trigger] vs2[i],
                                                ),
                                            None => true,
                                        });
                                        assert(forall|i: int|
                                            0 <= i < vs.len() ==> window_content_shape(
                                                #[trigger] vs[i],
                                            ));
                                        assert(false);
                                    }
                                }
                                return None;
                            },
                        }
                        idx += 1;
                    }
                    Some(cs)
                },
                None => {
                    return None;
                },
            },
            None => None,
        };
        let id = match jget_u64(j, "id") {
            Some(n) => n,
            None => {
                return None;
            },
        };
        let reason = match jget_opt(j, "reason") {
            Some(v) => match crate::json::jstr(v) {
                Some(s) => Some(s.clone()),
                None => {
                    return None;
                },
            },
            None => None,
        };
        let state = match jget_str(j, "state") {
            Some(s) => match SettlementWindowState::from_wire(s.as_str()) {
                Some(v) => v,
                None => {
                    return None;
                },
            },
            None => {
                return None;
            },
        };
        let created = match jget_str(j, "createdDate") {
            Some(s) => s,
            None => {
                return None;
            },
        };
        let changed = match jget_opt(j, "changedDate") {
            Some(v) => match crate::json::jstr(v) {
                Some(s) => Some(DateTime(s.clone())),
                None => {
                    return None;
                },
            },
            None => None,
        };
        Some(
            SettlementSettlementWindow {
                id: SettlementWindowId(id),
                reason,
                state,
                created_date: DateTime(created),
                changed_date: changed,
                content,
            },
        )
    }
}

/// A net settlement amount. Wire keys: `amount`, `currency`.
#[derive(Debug, Clone)]
pub struct NetSettlementAmount {
    pub amount: Amount,
    pub currency: Currency,
}

pub open spec fn net_amount_shape(j: JsonVal) -> bool {
    &&& match get_num(j, "amount"@) {
        Some(t) => valid_amount(t),
        None => false,
    }
    &&& match get_str(j, "currency"@) {
        Some(s) => valid_currency(s),
        None => false,
    }
}

pub open spec fn net_amount_rel(n: NetSettlementAmount, j: JsonVal) -> bool {
    &&& get_num(j, "amount"@) == Some(n.amount@)
    &&& get_str(j, "currency"@) == Some(n.currency@)
}

impl NetSettlementAmount {
    pub fn from_json(j: &Json) -> (r: Option<NetSettlementAmount>)
        ensures
            r is Some <==> net_amount_shape(j@),
            r matches Some(n) ==> net_amount_rel(n, j@),
    {
        let amount = match jget_num(j, "amount") {
            Some(t) => match Amount::from_decimal_str(t.as_str()) {
                Some(a) => a,
                None => {
                    return None;
                },
            },
            None => {
                return None;
            },
        };
        let currency = match jget_str(j, "currency") {
            Some(s) => match Currency::from_code(s.as_str()) {
                Some(c) => c,
                None => {
                    return None;
                },
            },
            None => {
                return None;
            },
        };
        Some(NetSettlementAmount { amount, currency })
    }
}

/// One account of a settlement participant. Wire keys: `id`, `reason`,
/// `state`, `netSettlementAmount`.
#[derive(Debug, Clone)]
pub struct SettlementAccount {
    pub id: ParticipantCurrencyId,
    pub reason: String,
    pub state: SettlementState,
    pub net_settlement_amount: NetSettlementAmount,
}

pub open spec fn settlement_account_shape(j: JsonVal) -> bool {
    &&& get_u64(j, "id"@) is Some
    &&& get_str(j, "reason"@) is Some
    &&& match get_str(j, "state"@) {
        Some(s) => settlement_state_of(s) is Some,
        None => false,
    }
    &&& match crate::json::get_field(j, "netSettlementAmount"@) {
        Some(n) => net_amount_shape(n),
        None => false,
    }
}

pub open spec fn settlement_account_rel(a: SettlementAccount, j: JsonVal) -> bool {
    &&& get_u64(j, "id"@) == Some(a.id.0)
    &&& get_str(j, "reason"@) == Some(a.reason@)
    &&& match get_str(j, "state"@) {
        Some(s) => settlement_state_of(s) == Some(a.state),
        None => false,
    }
    &&& match crate::json::get_field(j, "netSettlementAmount"@) {
        Some(n) => net_amount_rel(a.net_settlement_amount, n),
        None => false,
    }
}

impl SettlementAccount {
    pub fn from_json(j: &Json) -> (r: Option<SettlementAccount>)
        ensures
            r is Some <==> settlement_account_shape(j@),
            r matches Some(a) ==> settlement_account_rel(a, j@),
    {
        let id = match jget_u64(j, "id") {
            Some(n) => n,
            None => {
                return None;
            },
        };
        let reason = match jget_str(j, "reason") {
            Some(s) => s,
            None => {
                return None;
            },
        };
        let state = match jget_str(j, "state") {
            Some(s) => match SettlementState::from_wire(s.as_str()) {
                Some(v) => v,
                None => {
                    return None;
                },
            },
            None => {
                return None;
            },
        };
        let net = match jget(j, "netSettlementAmount") {
            Some(v) => match NetSettlementAmount::from_json(v) {
                Some(n) => n,
                None => {
                    return None;
                },
            },
            None => {
                return None;
            },
        };
        Some(SettlementAccount { id: ParticipantCurrencyId(id), reason, state, net_settlement_amount: net })
    }
}

/// One participant of a settlement. Wire keys: `id`, `accounts`.
#[derive(Debug, Clone)]
pub struct SettlementParticipant {
    pub id: ParticipantId,
    pub accounts: Vec<SettlementAccount>,
}

pub open spec fn settlement_participant_shape(j: JsonVal) -> bool {
    &&& get_u64(j, "id"@) is Some
    &&& match get_arr(j, "accounts"@) {
        Some(vs) => forall|i: int| 0 <= i < vs.len() ==> settlement_account_shape(#[trigger] vs[i]),
        None => false,
    }
}

pub open spec fn settlement_participant_rel(p: SettlementParticipant, j: JsonVal) -> bool {
    &&& get_u64(j, "id"@) == Some(p.id.0)
    &&& match get_arr(j, "accounts"@) {
        Some(vs) => p.accounts@.len() == vs.len() && forall|i: int|
            0 <= i < vs.len() ==> settlement_account_rel(#[trigger] p.accounts@[i], vs[i]),
        None => false,
    }
}

impl SettlementParticipant {
    pub fn from_json(j: &Json) -> (r: Option<SettlementParticipant>)
        ensures
            r is Some <==> settlement_participant_shape(j@),
            r matches Some(p) ==> settlement_participant_rel(p, j@),
    {
        let items = match jget(j, "accounts") {
            Some(v) => match jarr(v) {
                Some(items) => items,
                None => {
                    return None;
                },
            },
            None => {
                return None;
            },
        };
        let ghost vs = jarr_view(*items, 0);
        proof {
            lemma_jarr_view(*items, 0);
        }
        let mut accounts: Vec<SettlementAccount> = Vec::new();
        let mut idx: usize = 0;
        while idx < items.len()
            invariant
                0 <= idx <= items@.len(),
                vs == jarr_view(*items, 0),
                get_arr(j@, "accounts"@) == Some(vs),
                vs.len() == items@.len(),
                forall|m: int|
                    0 <= m < items@.len() ==> #[trigger] vs[m] == json_view(items@[m]),
                accounts@.len() == idx,
                forall|m: int|
                    0 <= m < idx ==> settlement_account_shape(#[trigger] vs[m])
                        && settlement_account_rel(accounts@[m], vs[m]),
            decreases items@.len() - idx,
        {
            match SettlementAccount::from_json(&items[idx]) {
                Some(a) => {
                    accounts.push(a);
                },
                None => {
                    proof {
                        assert(!settlement_account_shape(vs[idx as int]));
                        if settlement_participant_shape(j@) {
                            assert(match get_arr(j@, "accounts"@) {
                                Some(vs2) => forall|i: int|
                                    0 <= i < vs2.len() ==> settlement_account_shape(
                                        #[trigger] vs2[i],
                                    ),
                                None => false,
                            });
                            assert(forall|i: int|
                                0 <= i < vs.len() ==> settlement_account_shape(#[trigger] vs[i]));
                            assert(false);
                        }
                    }
                    return None;
                },
            }
            idx += 1;
        }
        let id = match jget_u64(j, "id") {
            Some(n) => n,
            None => {
                return None;
            },
        };
        Some(SettlementParticipant { id: ParticipantId(id), accounts })
    }
}

/// A settlement, as the settlement service returns it. Wire keys: `id`,
/// `state`, `createdDate`, `changedDate`, `settlementWindows`,
/// `participants`.
#[derive(Debug, Clone)]
pub struct Settlement {
    pub id: SettlementId,
    pub state: SettlementState,
    pub created_date: DateTime,
    pub changed_date: DateTime,
    pub settlement_windows: Vec<SettlementSettlementWindow>,
    pub participants: Vec<SettlementParticipant>,
}

pub type Settlements = Vec<Settlement>;

pub open spec fn settlement_shape(j: JsonVal) -> bool {
    &&& get_u64(j, "id"@) is Some
    &&& match get_str(j, "state"@) {
        Some(s) => settlement_state_of(s) is Some,
        None => false,
    }
    &&& get_str(j, "createdDate"@) is Some
    &&& get_str(j, "changedDate"@) is Some
    &&& match get_arr(j, "settlementWindows"@) {
        Some(vs) => forall|i: int|
            0 <= i < vs.len() ==> settlement_window_entry_shape(#[trigger] vs[i]),
        None => false,
    }
    &&& match get_arr(j, "participants"@) {
        Some(vs) => forall|i: int|
            0 <= i < vs.len() ==> settlement_participant_shape(#[trigger] vs[i]),
        None => false,
    }
}

pub open spec fn settlement_rel(s: Settlement, j: JsonVal) -> bool {
    &&& get_u64(j, "id"@) == Some(s.id.0)
    &&& match get_str(j, "state"@) {
        Some(t) => settlement_state_of(t) == Some(s.state),
        None => false,
    }
    &&& get_str(j, "createdDate"@) == Some(s.created_date@)
    &&& get_str(j, "changedDate"@) == Some(s.changed_date@)
    &&& match get_arr(j, "settlementWindows"@) {
        Some(vs) => s.settlement_windows@.len() == vs.len() && forall|i: int|
            0 <= i < vs.len() ==> settlement_window_entry_rel(
                #[trigger] s.settlement_windows@[i],
                vs[i],
            ),
        None => false,
    }
    &&& match get_arr(j, "participants"@) {
        Some(vs) => s.participants@.len() == vs.len() && forall|i: int|
            0 <= i < vs.len() ==> settlement_participant_rel(#[trigger] s.participants@[i], vs[i]),
        None => false,
    }
}

impl Settlement {
    pub fn from_json(j: &Json) -> (r: Option<Settlement>)
        ensures
            r is Some <==> settlement_shape(j@),
            r matches Some(s) ==> settlement_rel(s, j@),
    {
        let witems = match jget(j, "settlementWindows") {
            Some(v) => match jarr(v) {
                Some(items) => items,
                None => {
                    return None;
                },
            },
            None => {
                return None;
            },
        };
        let ghost wvs = jarr_view(*witems, 0);
        proof {
            lemma_jarr_view(*witems, 0);
        }
        let mut windows: Vec<SettlementSettlementWindow> = Vec::new();
        let mut idx: usize = 0;
        while idx < witems.len()
            invariant
                0 <= idx <= witems@.len(),
                wvs == jarr_view(*witems, 0),
                get_arr(j@, "settlementWindows"@) == Some(wvs),
                wvs.len() == witems@.len(),
                forall|m: int|
                    0 <= m < witems@.len() ==> #[trigger] wvs[m] == json_view(witems@[m]),
                windows@.len() == idx,
                forall|m: int|
                    0 <= m < idx ==> settlement_window_entry_shape(#[trigger] wvs[m])
                        && settlement_window_entry_rel(windows@[m], wvs[m]),
            decreases witems@.len() - idx,
        {
            match SettlementSettlementWindow::from_json(&witems[idx]) {
                Some(w) => {
                    windows.push(w);
                },
                None => {
                    proof {
                        assert(!settlement_window_entry_shape(wvs[idx as int]));
                        if settlement_shape(j@) {
                            assert(match get_arr(j@, "settlementWindows"@) {
                                Some(vs2) => forall|i: int|
                                    0 <= i < vs2.len() ==> settlement_window_entry_shape(
                                        #[trigger] vs2[i],
                                    ),
                                None => false,
                            });
                            assert(forall|i: int|
                                0 <= i < wvs.len() ==> settlement_window_entry_shape(
                                    #[trigger] wvs[i],
                                ));
                            assert(false);
                        }
                    }
                    return None;
                },
            }
            idx += 1;
        }
        let pitems = match jget(j, "participants") {
            Some(v) => match jarr(v) {
                Some(items) => items,
                None => {
                    return None;
                },
            },
            None => {
                return None;
            },
        };
        let ghost pvs = jarr_view(*pitems, 0);
        proof {
            lemma_jarr_view(*pitems, 0);
        }
        let mut participants: Vec<SettlementParticipant> = Vec::new();
        let mut pdx: usize = 0;
        while pdx < pitems.len()
            invariant
                0 <= pdx <= pitems@.len(),
                pvs == jarr_view(*pitems, 0),
                get_arr(j@, "participants"@) == Some(pvs),
                pvs.len() == pitems@.len(),
                forall|m: int|
                    0 <= m < pitems@.len() ==> #[trigger] pvs[m] == json_view(pitems@[m]),
                participants@.len() == pdx,
                forall|m: int|
                    0 <= m < pdx ==> settlement_participant_shape(#[trigger] pvs[m])
                        && settlement_participant_rel(participants@[m], pvs[m]),
                get_arr(j@, "settlementWindows"@) == Some(wvs),
                windows@.len() == wvs.len(),
                forall|m: int|
                    0 <= m < wvs.len() ==> settlement_window_entry_shape(#[trigger] wvs[m])
                        && settlement_window_entry_rel(windows@[m], wvs[m]),
            decreases pitems@.len() - pdx,
        {
            match SettlementParticipant::from_json(&pitems[pdx]) {
                Some(p) => {
                    participants.push(p);
                },
                None => {
                    proof {
                        assert(!settlement_participant_shape(pvs[pdx as int]));
                        if settlement_shape(j@) {
                            assert(match get_arr(j@, "participants"@) {
                                Some(vs2) => forall|i: int|
                                    0 <= i < vs2.len() ==> settlement_participant_shape(
                                        #[trigger] vs2[i],
                                    ),
                                None => false,
                            });
                            assert(forall|i: int|
                                0 <= i < pvs.len() ==> settlement_participant_shape(
                                    #[trigger] pvs[i],
                                ));
                            assert(false);
                        }
                    }
                    return None;
                },
            }
            pdx += 1;
        }
        let id = match jget_u64(j, "id") {
            Some(n) => n,
            None => {
                return None;
            },
        };
        let state = match jget_str(j, "state") {
            Some(s) => match SettlementState::from_wire(s.as_str()) {
                Some(v) => v,
                None => {
                    return None;
                },
            },
            None => {
                return None;
            },
        };
        let created = match jget_str(j, "createdDate") {
            Some(s) => s,
            None => {
                return None;
            },
        };
        let changed = match jget_str(j, "changedDate") {
            Some(s) => s,
            None => {
                return None;
            },
        };
        Some(
            Settlement {
                id: SettlementId(id),
                state,
                created_date: DateTime(created),
                changed_date: DateTime(changed),
                settlement_windows: windows,
                participants,
            },
        )
    }
}

/// A settlement to create over closed windows. Wire keys:
/// `settlementModel`, `reason`, `settlementWindows`.
#[derive(Debug, Clone)]
pub struct NewSettlement {
    pub settlement_model: String,
    pub reason: String,
    pub settlement_windows: Vec<SettlementWindowId>,
}

pub open spec fn new_settlement_model(n: NewSettlement) -> JsonVal {
    JsonVal::Obj(
        seq![
            ("settlementModel"@, JsonVal::Str(n.settlement_model@)),
            ("reason"@, JsonVal::Str(n.reason@)),
            (
                "settlementWindows"@,
                JsonVal::Arr(
                    Seq::new(
                        n.settlement_windows@.len(),
                        |i: int| JsonVal::Num(spec_dec(n.settlement_windows@[i].0 as nat)),
                    ),
                ),
            ),
        ],
    )
}

impl NewSettlement {
    pub fn to_json(&self) -> (r: Json)
        ensures
            r@ == new_settlement_model(*self),
    {
        let mut ids: Vec<Json> = Vec::new();
        let mut i: usize = 0;
        while i < self.settlement_windows.len()
            invariant
                0 <= i <= self.settlement_windows@.len(),
                ids@.len() == i,
                forall|m: int|
                    0 <= m < i ==> json_view(#[trigger] ids@[m]) == JsonVal::Num(
                        spec_dec(self.settlement_windows@[m].0 as nat),
                    ),
            decreases self.settlement_windows@.len() - i,
        {
            ids.push(Json::Num(u64_to_dec(self.settlement_windows[i].0)));
            i += 1;
        }
        let arr = Json::Arr(ids);
        proof {
            lemma_jarr_view(arr->Arr_0, 0);
            assert(arr@->Arr_0 =~= Seq::new(
                self.settlement_windows@.len(),
                |i: int| JsonVal::Num(spec_dec(self.settlement_windows@[i].0 as nat)),
            ));
        }
        let mut ms: Vec<(String, Json)> = Vec::new();
        ms.push(("settlementModel".to_owned(), Json::Str(self.settlement_model.clone())));
        ms.push(("reason".to_owned(), Json::Str(self.reason.clone())));
        ms.push(("settlementWindows".to_owned(), arr));
        let r = Json::Obj(ms);
        proof {
            lemma_jobj_view(r->Obj_0, 0);
            assert(r@->Obj_0 =~= new_settlement_model(*self)->Obj_0);
        }
        r
    }
}

/// Creates a settlement.
#[derive(Debug, Clone)]
pub struct PostSettlement {
    pub new_settlement: NewSettlement,
}

impl PostSettlement {
    /// POST `/v2/settlements` with the new settlement, expecting the
    /// created settlement back.
    pub fn to_wire(&self) -> (r: WireRequest)
        ensures
            r.method == Method::POST,
            r.service == MojaloopService::CentralSettlement,
            r.path@ == "/v2/settlements"@,
            r.body matches Some(b) && b@ == json_text(new_settlement_model(self.new_settlement)),
            r.response_tag == ResponseTag::Settlement,
    {
        WireRequest {
            method: Method::POST,
            service: MojaloopService::CentralSettlement,
            path: "/v2/settlements".to_owned(),
            body: Some(json_write(&self.new_settlement.to_json())),
            response_tag: ResponseTag::Settlement,
        }
    }
}

/// Lists settlements matching at least one filter.
#[derive(Debug, Clone)]
pub struct GetSettlements {
    pub currency: Option<Currency>,
    pub participant_id: Option<FspId>,
    pub settlement_window_id: Option<SettlementWindowId>,
    pub state: Option<SettlementState>,
    pub from_date_time: Option<DateTime>,
    pub to_date_time: Option<DateTime>,
    pub from_settlement_window_date_time: Option<DateTime>,
    pub to_settlement_window_date_time: Option<DateTime>,
}

impl GetSettlements {
    /// No filter at all was given.
    pub open spec fn is_unconstrained(&self) -> bool {
        &&& self.currency is None
        &&& self.participant_id is None
        &&& self.settlement_window_id is None
        &&& self.state is None
        &&& self.from_date_time is None
        &&& self.to_date_time is None
        &&& self.from_settlement_window_date_time is None
        &&& self.to_settlement_window_date_time is None
    }

    /// The query mapping this request denotes.
    pub open spec fn query_map(&self) -> Map<Seq<char>, Seq<char>> {
        let m0 = Map::<Seq<char>, Seq<char>>::empty();
        let m1 = match self.currency {
            Some(c) => m0.insert("currency"@, c@),
            None => m0,
        };
        let m2 = match self.participant_id {
            Some(p) => m1.insert("participantId"@, p@),
            None => m1,
        };
        let m3 = match self.settlement_window_id {
            Some(w) => m2.insert("settlementWindowId"@, spec_dec(w.0 as nat)),
            None => m2,
        };
        let m4 = match self.state {
            Some(st) => m3.insert("state"@, settlement_state_str(st)),
            None => m3,
        };
        let m5 = match self.from_date_time {
            Some(d) => m4.insert("fromDateTime"@, d@),
            None => m4,
        };
        let m6 = match self.to_date_time {
            Some(d) => m5.insert("toDateTime"@, d@),
            None => m5,
        };
        let m7 = match self.from_settlement_window_date_time {
            Some(d) => m6.insert("fromSettlementWindowDateTime"@, d@),
            None => m6,
        };
        match self.to_settlement_window_date_time {
            Some(d) => m7.insert("toSettlementWindowDateTime"@, d@),
            None => m7,
        }
    }

    /// GET `/v2/settlements?{query}`. Building the request fails, before
    /// any network call, exactly when no filter was given.
    pub fn to_wire(&self) -> (r: Result<WireRequest, CallerConstructionError>)
        ensures
            r is Err <==> self.is_unconstrained(),
            r matches Err(e) ==> e == CallerConstructionError::EmptyQueryParameterSet,
            r matches Ok(w) ==> {
                &&& w.method == Method::GET
                &&& w.service == MojaloopService::CentralSettlement
                &&& w.body is None
                &&& w.response_tag == ResponseTag::Settlements
                &&& exists|q: QueryParameterSet|
                    q.wf() && #[trigger] q@ == self.query_map() && w.path@ == "/v2/settlements?"@
                        + q.encoded_spec()
            },
    {
        if self.currency.is_none() && self.participant_id.is_none()
            && self.settlement_window_id.is_none() && self.state.is_none()
            && self.from_date_time.is_none() && self.to_date_time.is_none()
            && self.from_settlement_window_date_time.is_none()
            && self.to_settlement_window_date_time.is_none() {
            return Err(CallerConstructionError::EmptyQueryParameterSet);
        }
        let mut q = QueryParameterSet::new();
        if let Some(c) = &self.currency {
            q.insert("currency".to_owned(), c.code().to_owned());
        }
        if let Some(p) = &self.participant_id {
            q.insert("participantId".to_owned(), p.0.clone());
        }
        if let Some(w) = &self.settlement_window_id {
            q.insert("settlementWindowId".to_owned(), u64_to_dec(w.0));
        }
        if let Some(st) = &self.state {
            q.insert("state".to_owned(), st.wire_name().to_owned());
        }
        if let Some(d) = &self.from_date_time {
            q.insert("fromDateTime".to_owned(), d.0.clone());
        }
        if let Some(d) = &self.to_date_time {
            q.insert("toDateTime".to_owned(), d.0.clone());
        }
        if let Some(d) = &self.from_settlement_window_date_time {
            q.insert("fromSettlementWindowDateTime".to_owned(), d.0.clone());
        }
        if let Some(d) = &self.to_settlement_window_date_time {
            q.insert("toSettlementWindowDateTime".to_owned(), d.0.clone());
        }
        proof {
            assert(q@ =~= self.query_map());
        }
        let mut path = "/v2/settlements?".to_owned();
        path.append(q.encode().as_str());
        let w = WireRequest {
            method: Method::GET,
            service: MojaloopService::CentralSettlement,
            path,
            body: None,
            response_tag: ResponseTag::Settlements,
        };
        proof {
            assert(q.wf() && q@ == self.query_map() && w.path@ == "/v2/settlements?"@
                + q.encoded_spec());
        }
        Ok(w)
    }
}

} // verus!
