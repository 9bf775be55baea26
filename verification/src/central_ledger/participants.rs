//! Participant registry records and operations: participants, their
//! accounts, limits, initial positions, settlement funds and FSPIOP
//! callback endpoints.
//!
//! Every record states its exact wire object; every operation states its
//! method, rendered path and body.

use crate::common::{Method, MojaloopService, ResponseTag, WireRequest};
use crate::json::{
    get_arr, get_str, get_u64, jarr, jget, jget_str, jget_u64, json_text, json_write,
    lemma_jarr_view, lemma_jobj_view, Json, JsonVal,
};
use crate::query::{encoded, percent_encode, str_eq};
use crate::text::{spec_dec, u64_to_dec};
use crate::types::{valid_currency, Amount, CorrelationId, Currency, DateTime, FspId, Money};
use vstd::prelude::*;

verus! {

/// A ledger account id.
#[derive(Debug, Clone, Copy, PartialEq, Eq, Structural)]
pub struct AccountId(pub u64);

/// A settlement account id.
#[derive(Debug, Clone, Copy, PartialEq, Eq, Structural)]
pub struct SettlementAccountId(pub u64);

/// An activation flag that travels as the strings `"1"` and `"0"`.
#[derive(Debug, Clone, Copy, PartialEq, Eq, Structural)]
pub enum IsActive {
    Yes,
    No,
}

pub open spec fn is_active_str(v: IsActive) -> Seq<char> {
    match v {
        IsActive::Yes => "1"@,
        IsActive::No => "0"@,
    }
}

impl IsActive {
    pub fn wire_name(&self) -> (r: &'static str)
        ensures
            r@ == is_active_str(*self),
    {
        match self {
            IsActive::Yes => "1",
            IsActive::No => "0",
        }
    }
}

/// An account type of the hub itself.
#[derive(Debug, Clone, Copy, PartialEq, Eq, Structural)]
pub enum HubAccountType {
    HubMultilateralSettlement,
    HubReconciliation,
}

pub open spec fn hub_account_type_str(v: HubAccountType) -> Seq<char> {
    match v {
        HubAccountType::HubMultilateralSettlement => "HUB_MULTILATERAL_SETTLEMENT"@,
        HubAccountType::HubReconciliation => "HUB_RECONCILIATION"@,
    }
}

impl HubAccountType {
    pub fn wire_name(&self) -> (r: &'static str)
        ensures
            r@ == hub_account_type_str(*self),
    {
        match self {
            HubAccountType::HubMultilateralSettlement => "HUB_MULTILATERAL_SETTLEMENT",
            HubAccountType::HubReconciliation => "HUB_RECONCILIATION",
        }
    }
}

/// An account type of a participant.
#[derive(Debug, Clone, Copy, PartialEq, Eq, Structural)]
pub enum LedgerAccountType {
    Position,
    Settlement,
}

pub open spec fn ledger_account_type_str(v: LedgerAccountType) -> Seq<char> {
    match v {
        LedgerAccountType::Position => "POSITION"@,
        LedgerAccountType::Settlement => "SETTLEMENT"@,
    }
}

pub open spec fn ledger_account_type_of(s: Seq<char>) -> Option<LedgerAccountType> {
    if s == "POSITION"@ {
        Some(LedgerAccountType::Position)
    } else if s == "SETTLEMENT"@ {
        Some(LedgerAccountType::Settlement)
    } else {
        None
    }
}

impl LedgerAccountType {
    pub fn wire_name(&self) -> (r: &'static str)
        ensures
            r@ == ledger_account_type_str(*self),
    {
        match self {
            LedgerAccountType::Position => "POSITION",
            LedgerAccountType::Settlement => "SETTLEMENT",
        }
    }

    pub fn from_wire(s: &str) -> (r: Option<LedgerAccountType>)
        ensures
            r == ledger_account_type_of(s@),
    {
        if str_eq(s, "POSITION") {
            Some(LedgerAccountType::Position)
        } else if str_eq(s, "SETTLEMENT") {
            Some(LedgerAccountType::Settlement)
        } else {
            None
        }
    }
}

/// Any account type a ledger response may carry.
#[derive(Debug, Clone, Copy, PartialEq, Eq, Structural)]
pub enum AnyAccountType {
    Position,
    Settlement,
    HubMultilateralSettlement,
    HubReconciliation,
}

pub open spec fn any_account_type_str(v: AnyAccountType) -> Seq<char> {
    match v {
        AnyAccountType::Position => "POSITION"@,
        AnyAccountType::Settlement => "SETTLEMENT"@,
        AnyAccountType::HubMultilateralSettlement => "HUB_MULTILATERAL_SETTLEMENT"@,
        AnyAccountType::HubReconciliation => "HUB_RECONCILIATION"@,
    }
}

pub open spec fn any_account_type_of(s: Seq<char>) -> Option<AnyAccountType> {
    if s == "POSITION"@ {
        Some(AnyAccountType::Position)
    } else if s == "SETTLEMENT"@ {
        Some(AnyAccountType::Settlement)
    } else if s == "HUB_MULTILATERAL_SETTLEMENT"@ {
        Some(AnyAccountType::HubMultilateralSettlement)
    } else if s == "HUB_RECONCILIATION"@ {
        Some(AnyAccountType::HubReconciliation)
    } else {
        None
    }
}

impl AnyAccountType {
    pub fn wire_name(&self) -> (r: &'static str)
        ensures
            r@ == any_account_type_str(*self),
    {
        match self {
            AnyAccountType::Position => "POSITION",
            AnyAccountType::Settlement => "SETTLEMENT",
            AnyAccountType::HubMultilateralSettlement => "HUB_MULTILATERAL_SETTLEMENT",
            AnyAccountType::HubReconciliation => "HUB_RECONCILIATION",
        }
    }

    pub fn from_wire(s: &str) -> (r: Option<AnyAccountType>)
        ensures
            r == any_account_type_of(s@),
    {
        if str_eq(s, "POSITION") {
            Some(AnyAccountType::Position)
        } else if str_eq(s, "SETTLEMENT") {
            Some(AnyAccountType::Settlement)
        } else if str_eq(s, "HUB_MULTILATERAL_SETTLEMENT") {
            Some(AnyAccountType::HubMultilateralSettlement)
        } else if str_eq(s, "HUB_RECONCILIATION") {
            Some(AnyAccountType::HubReconciliation)
        } else {
            None
        }
    }
}

/// The single supported participant limit type.
#[derive(Debug, Clone, Copy, PartialEq, Eq, Structural)]
pub enum LimitType {
    NetDebitCap,
}

pub open spec fn limit_type_str(v: LimitType) -> Seq<char> {
    match v {
        LimitType::NetDebitCap => "NET_DEBIT_CAP"@,
    }
}

pub open spec fn limit_type_of(s: Seq<char>) -> Option<LimitType> {
    if s == "NET_DEBIT_CAP"@ {
        Some(LimitType::NetDebitCap)
    } else {
        None
    }
}

impl LimitType {
    pub fn wire_name(&self) -> (r: &'static str)
        ensures
            r@ == limit_type_str(*self),
    {
        "NET_DEBIT_CAP"
    }

    pub fn from_wire(s: &str) -> (r: Option<LimitType>)
        ensures
            r == limit_type_of(s@),
    {
        if str_eq(s, "NET_DEBIT_CAP") {
            Some(LimitType::NetDebitCap)
        } else {
            None
        }
    }
}

/// Direction of a settlement funds movement.
#[derive(Debug, Clone, Copy, PartialEq, Eq, Structural)]
pub enum ParticipantFundsInOutAction {
    RecordFundsIn,
    RecordFundsOutPrepareReserve,
}

pub open spec fn funds_action_str(v: ParticipantFundsInOutAction) -> Seq<char> {
    match v {
        ParticipantFundsInOutAction::RecordFundsIn => "recordFundsIn"@,
        ParticipantFundsInOutAction::RecordFundsOutPrepareReserve => "recordFundsOutPrepareReserve"@,
    }
}

impl ParticipantFundsInOutAction {
    pub fn wire_name(&self) -> (r: &'static str)
        ensures
            r@ == funds_action_str(*self),
    {
        match self {
            ParticipantFundsInOutAction::RecordFundsIn => "recordFundsIn",
            ParticipantFundsInOutAction::RecordFundsOutPrepareReserve => "recordFundsOutPrepareReserve",
        }
    }
}

/// The single supported party id type.
#[derive(Debug, Clone, Copy, PartialEq, Eq, Structural)]
pub enum PartyIdType {
    MSISDN,
}

pub open spec fn party_id_type_str(v: PartyIdType) -> Seq<char> {
    match v {
        PartyIdType::MSISDN => "MSISDN"@,
    }
}

impl PartyIdType {
    pub fn wire_name(&self) -> (r: &'static str)
        ensures
            r@ == party_id_type_str(*self),
    {
        "MSISDN"
    }
}

/// A hub account to create. Wire keys: `type`, `currency`.
#[derive(Debug, Clone)]
pub struct HubAccount {
    pub account_type: HubAccountType,
    pub currency: Currency,
}

pub open spec fn hub_account_model(a: HubAccount) -> JsonVal {
    JsonVal::Obj(
        seq![
            ("type"@, JsonVal::Str(hub_account_type_str(a.account_type))),
            ("currency"@, JsonVal::Str(a.currency@)),
        ],
    )
}

impl HubAccount {
    pub fn to_json(&self) -> (r: Json)
        ensures
            r@ == hub_account_model(*self),
    {
        let mut ms: Vec<(String, Json)> = Vec::new();
        ms.push(("type".to_owned(), Json::Str(self.account_type.wire_name().to_owned())));
        ms.push(("currency".to_owned(), Json::Str(self.currency.code().to_owned())));
        let r = Json::Obj(ms);
        proof {
            lemma_jobj_view(r->Obj_0, 0);
            assert(r@->Obj_0 =~= hub_account_model(*self)->Obj_0);
        }
        r
    }
}

/// A participant to register. Wire keys: `name`, `currency`.
#[derive(Debug, Clone)]
pub struct NewParticipant {
    pub name: FspId,
    pub currency: Currency,
}

pub open spec fn new_participant_model(p: NewParticipant) -> JsonVal {
    JsonVal::Obj(
        seq![("name"@, JsonVal::Str(p.name@)), ("currency"@, JsonVal::Str(p.currency@))],
    )
}

impl NewParticipant {
    pub fn to_json(&self) -> (r: Json)
        ensures
            r@ == new_participant_model(*self),
    {
        let mut ms: Vec<(String, Json)> = Vec::new();
        ms.push(("name".to_owned(), Json::Str(self.name.0.clone())));
        ms.push(("currency".to_owned(), Json::Str(self.currency.code().to_owned())));
        let r = Json::Obj(ms);
        proof {
            lemma_jobj_view(r->Obj_0, 0);
            assert(r@->Obj_0 =~= new_participant_model(*self)->Obj_0);
        }
        r
    }
}

/// A net debit cap limit. Wire keys: `type`, `value`.
#[derive(Debug, Clone, Copy)]
pub struct Limit {
    pub limit_type: LimitType,
    pub value: u32,
}

pub open spec fn limit_model(l: Limit) -> JsonVal {
    JsonVal::Obj(
        seq![
            ("type"@, JsonVal::Str(limit_type_str(l.limit_type))),
            ("value"@, JsonVal::Num(spec_dec(l.value as nat))),
        ],
    )
}

impl Limit {
    pub fn to_json(&self) -> (r: Json)
        ensures
            r@ == limit_model(*self),
    {
        let mut ms: Vec<(String, Json)> = Vec::new();
        ms.push(("type".to_owned(), Json::Str(self.limit_type.wire_name().to_owned())));
        ms.push(("value".to_owned(), Json::Num(u64_to_dec(self.value as u64))));
        let r = Json::Obj(ms);
        proof {
            lemma_jobj_view(r->Obj_0, 0);
            assert(r@->Obj_0 =~= limit_model(*self)->Obj_0);
        }
        r
    }
}

/// A participant limit with its alarm threshold. Wire keys: `type`,
/// `value`, `alarmPercentage`.
#[derive(Debug, Clone, Copy)]
pub struct ParticipantLimit {
    pub limit_type: LimitType,
    pub value: u32,
    pub alarm_percentage: u8,
}

pub open spec fn participant_limit_model(l: ParticipantLimit) -> JsonVal {
    JsonVal::Obj(
        seq![
            ("type"@, JsonVal::Str(limit_type_str(l.limit_type))),
            ("value"@, JsonVal::Num(spec_dec(l.value as nat))),
            ("alarmPercentage"@, JsonVal::Num(spec_dec(l.alarm_percentage as nat))),
        ],
    )
}

pub open spec fn participant_limit_shape(j: JsonVal) -> bool {
    &&& match get_str(j, "type"@) {
        Some(s) => limit_type_of(s) is Some,
        None => false,
    }
    &&& match get_u64(j, "value"@) {
        Some(n) => n <= u32::MAX,
        None => false,
    }
    &&& match get_u64(j, "alarmPercentage"@) {
        Some(n) => n <= 255,
        None => false,
    }
}

pub open spec fn participant_limit_rel(l: ParticipantLimit, j: JsonVal) -> bool {
    &&& match get_str(j, "type"@) {
        Some(s) => limit_type_of(s) == Some(l.limit_type),
        None => false,
    }
    &&& get_u64(j, "value"@) == Some(l.value as u64)
    &&& get_u64(j, "alarmPercentage"@) == Some(l.alarm_percentage as u64)
}

impl ParticipantLimit {
    pub fn to_json(&self) -> (r: Json)
        ensures
            r@ == participant_limit_model(*self),
    {
        let mut ms: Vec<(String, Json)> = Vec::new();
        ms.push(("type".to_owned(), Json::Str(self.limit_type.wire_name().to_owned())));
        ms.push(("value".to_owned(), Json::Num(u64_to_dec(self.value as u64))));
        ms.push(("alarmPercentage".to_owned(), Json::Num(u64_to_dec(self.alarm_percentage as u64))));
        let r = Json::Obj(ms);
        proof {
            lemma_jobj_view(r->Obj_0, 0);
            assert(r@->Obj_0 =~= participant_limit_model(*self)->Obj_0);
        }
        r
    }

    pub fn from_json(j: &Json) -> (r: Option<ParticipantLimit>)
        ensures
            r is Some <==> participant_limit_shape(j@),
            r matches Some(l) ==> participant_limit_rel(l, j@),
    {
        let lt = match jget_str(j, "type") {
            Some(s) => match LimitType::from_wire(s.as_str()) {
                Some(v) => v,
                None => {
                    return None;
                },
            },
            None => {
                return None;
            },
        };
        let value = match jget_u64(j, "value") {
            Some(n) => {
                if n <= 0xffff_ffff {
                    n as u32
                } else {
                    return None;
                }
            },
            None => {
                return None;
            },
        };
        let alarm = match jget_u64(j, "alarmPercentage") {
            Some(n) => {
                if n <= 255 {
                    n as u8
                } else {
                    return None;
                }
            },
            None => {
                return None;
            },
        };
        Some(ParticipantLimit { limit_type: lt, value, alarm_percentage: alarm })
    }
}

/// A participant's initial position and limit. Wire keys: `currency`,
/// `limit`, `initialPosition`.
#[derive(Debug, Clone)]
pub struct InitialPositionAndLimits {
    pub currency: Currency,
    pub limit: Limit,
    pub initial_position: Amount,
}

pub open spec fn initial_position_and_limits_model(v: InitialPositionAndLimits) -> JsonVal {
    JsonVal::Obj(
        seq![
            ("currency"@, JsonVal::Str(v.currency@)),
            ("limit"@, limit_model(v.limit)),
            ("initialPosition"@, JsonVal::Num(v.initial_position@)),
        ],
    )
}

impl InitialPositionAndLimits {
    pub fn to_json(&self) -> (r: Json)
        ensures
            r@ == initial_position_and_limits_model(*self),
    {
        let mut ms: Vec<(String, Json)> = Vec::new();
        ms.push(("currency".to_owned(), Json::Str(self.currency.code().to_owned())));
        ms.push(("limit".to_owned(), self.limit.to_json()));
        ms.push(("initialPosition".to_owned(), Json::Num(self.initial_position.digits().to_owned())));
        let r = Json::Obj(ms);
        proof {
            lemma_jobj_view(r->Obj_0, 0);
            assert(r@->Obj_0 =~= initial_position_and_limits_model(*self)->Obj_0);
        }
        r
    }
}

/// A settlement funds movement. Wire keys: `transferId`, `action`,
/// `externalReference`, `reason`, `amount`.
#[derive(Debug, Clone)]
pub struct ParticipantFundsInOut {
    pub transfer_id: CorrelationId,
    pub action: ParticipantFundsInOutAction,
    pub external_reference: String,
    pub reason: String,
    pub amount: Money,
}

pub open spec fn money_model(m: Money) -> JsonVal {
    JsonVal::Obj(
        seq![("currency"@, JsonVal::Str(m.currency@)), ("amount"@, JsonVal::Str(m.amount@))],
    )
}

pub open spec fn funds_in_out_model(f: ParticipantFundsInOut) -> JsonVal {
    JsonVal::Obj(
        seq![
            ("transferId"@, JsonVal::Str(f.transfer_id@)),
            ("action"@, JsonVal::Str(funds_action_str(f.action))),
            ("externalReference"@, JsonVal::Str(f.external_reference@)),
            ("reason"@, JsonVal::Str(f.reason@)),
            ("amount"@, money_model(f.amount)),
        ],
    )
}

impl ParticipantFundsInOut {
    pub fn to_json(&self) -> (r: Json)
        ensures
            r@ == funds_in_out_model(*self),
    {
        let mut money: Vec<(String, Json)> = Vec::new();
        money.push(("currency".to_owned(), Json::Str(self.amount.currency.code().to_owned())));
        money.push(("amount".to_owned(), Json::Str(self.amount.amount.digits().to_owned())));
        let money_json = Json::Obj(money);
        proof {
            lemma_jobj_view(money_json->Obj_0, 0);
            assert(money_json@->Obj_0 =~= money_model(self.amount)->Obj_0);
        }
        let mut ms: Vec<(String, Json)> = Vec::new();
        ms.push(("transferId".to_owned(), Json::Str(self.transfer_id.0.clone())));
        ms.push(("action".to_owned(), Json::Str(self.action.wire_name().to_owned())));
        ms.push(("externalReference".to_owned(), Json::Str(self.external_reference.clone())));
        ms.push(("reason".to_owned(), Json::Str(self.reason.clone())));
        ms.push(("amount".to_owned(), money_json));
        let r = Json::Obj(ms);
        proof {
            lemma_jobj_view(r->Obj_0, 0);
            assert(r@->Obj_0 =~= funds_in_out_model(*self)->Obj_0);
        }
        r
    }
}

/// One account of a participant, as the registry lists it. Wire keys:
/// `id`, `ledgerAccountType`, `currency`, `isActive`.
#[derive(Debug, Clone)]
pub struct ParticipantAccount {
    pub id: SettlementAccountId,
    pub ledger_account_type: AnyAccountType,
    pub currency: Currency,
    pub is_active: u8,
}

pub open spec fn participant_account_shape(j: JsonVal) -> bool {
    &&& get_u64(j, "id"@) is Some
    &&& match get_str(j, "ledgerAccountType"@) {
        Some(s) => any_account_type_of(s) is Some,
        None => false,
    }
    &&& match get_str(j, "currency"@) {
        Some(s) => valid_currency(s),
        None => false,
    }
    &&& match get_u64(j, "isActive"@) {
        Some(n) => n <= 255,
        None => false,
    }
}

pub open spec fn participant_account_rel(a: ParticipantAccount, j: JsonVal) -> bool {
    &&& get_u64(j, "id"@) == Some(a.id.0)
    &&& match get_str(j, "ledgerAccountType"@) {
        Some(s) => any_account_type_of(s) == Some(a.ledger_account_type),
        None => false,
    }
    &&& get_str(j, "currency"@) == Some(a.currency@)
    &&& get_u64(j, "isActive"@) == Some(a.is_active as u64)
}

impl ParticipantAccount {
    pub fn from_json(j: &Json) -> (r: Option<ParticipantAccount>)
        ensures
            r is Some <==> participant_account_shape(j@),
            r matches Some(a) ==> participant_account_rel(a, j@),
    {
        let id = match jget_u64(j, "id") {
            Some(n) => n,
            None => {
                return None;
            },
        };
        let lat = match jget_str(j, "ledgerAccountType") {
            Some(s) => match AnyAccountType::from_wire(s.as_str()) {
                Some(v) => v,
                None => {
                    return None;
                },
            },
            None => {
                return None;
            },
        };
        let cur = match jget_str(j, "currency") {
            Some(s) => match Currency::from_code(s.as_str()) {
                Some(c) => c,
                None => {
                    return None;
                },
            },
            None => {
                return None;
            },
        };
        let ia = match jget_u64(j, "isActive") {
            Some(n) => {
                if n <= 255 {
                    n as u8
                } else {
                    return None;
                }
            },
            None => {
                return None;
            },
        };
        Some(
            ParticipantAccount {
                id: SettlementAccountId(id),
                ledger_account_type: lat,
                currency: cur,
                is_active: ia,
            },
        )
    }
}

/// A registered participant, as the registry returns it. Wire keys:
/// `name`, `id`, `created`, `isActive`, `accounts`.
#[derive(Debug, Clone)]
pub struct Participant {
    pub name: FspId,
    pub id: String,
    pub created: DateTime,
    pub is_active: u8,
    pub accounts: Vec<ParticipantAccount>,
}

pub type Participants = Vec<Participant>;

pub open spec fn participant_shape(j: JsonVal) -> bool {
    &&& get_str(j, "name"@) is Some
    &&& get_str(j, "id"@) is Some
    &&& get_str(j, "created"@) is Some
    &&& match get_u64(j, "isActive"@) {
        Some(n) => n <= 255,
        None => false,
    }
    &&& match get_arr(j, "accounts"@) {
        Some(vs) => forall|i: int|
            0 <= i < vs.len() ==> participant_account_shape(#[trigger] vs[i]),
        None => false,
    }
}

pub open spec fn participant_rel(p: Participant, j: JsonVal) -> bool {
    &&& get_str(j, "name"@) == Some(p.name@)
    &&& get_str(j, "id"@) == Some(p.id@)
    &&& get_str(j, "created"@) == Some(p.created@)
    &&& get_u64(j, "isActive"@) == Some(p.is_active as u64)
    &&& match get_arr(j, "accounts"@) {
        Some(vs) => p.accounts@.len() == vs.len() && forall|i: int|
            0 <= i < vs.len() ==> participant_account_rel(#[trigger] p.accounts@[i], vs[i]),
        None => false,
    }
}

impl Participant {
    pub fn from_json(j: &Json) -> (r: Option<Participant>)
        ensures
            r is Some <==> participant_shape(j@),
            r matches Some(p) ==> participant_rel(p, j@),
    {
        let items = match jget(j, "accounts") {
            Some(v) => match jarr(v) {
                Some(items) => items,
                None => {
                    return None;
                },
            },
            None => {
                return None;
            },
        };
        let ghost vs = crate::json::jarr_view(*items, 0);
        proof {
            lemma_jarr_view(*items, 0);
        }
        let mut accounts: Vec<ParticipantAccount> = Vec::new();
        let mut idx: usize = 0;
        while idx < items.len()
            invariant
                0 <= idx <= items@.len(),
                vs == crate::json::jarr_view(*items, 0),
                get_arr(j@, "accounts"@) == Some(vs),
                vs.len() == items@.len(),
                forall|m: int|
                    0 <= m < items@.len() ==> #[trigger] vs[m] == crate::json::json_view(
                        items@[m],
                    ),
                accounts@.len() == idx,
                forall|m: int|
                    0 <= m < idx ==> participant_account_shape(#[trigger] vs[m])
                        && participant_account_rel(accounts@[m], vs[m]),
            decreases items@.len() - idx,
        {
            match ParticipantAccount::from_json(&items[idx]) {
                Some(a) => {
                    accounts.push(a);
                },
                None => {
                    proof {
                        assert(!participant_account_shape(vs[idx as int]));
                        if participant_shape(j@) {
                            assert(get_arr(j@, "accounts"@) == Some(vs));
                            assert(match get_arr(j@, "accounts"@) {
                                Some(vs2) => forall|i: int|
                                    0 <= i < vs2.len() ==> participant_account_shape(
                                        #[trigger] vs2[i],
                                    ),
                                None => false,
                            });
                            assert(forall|i: int|
                                0 <= i < vs.len() ==> participant_account_shape(#[trigger] vs[i]));
                            assert(participant_account_shape(vs[idx as int]));
                            assert(false);
                        }
                    }
                    return None;
                },
            }
            idx += 1;
        }
        let name = match jget_str(j, "name") {
            Some(s) => s,
            None => {
                return None;
            },
        };
        let id = match jget_str(j, "id") {
            Some(s) => s,
            None => {
                return None;
            },
        };
        let created = match jget_str(j, "created") {
            Some(s) => s,
            None => {
                return None;
            },
        };
        let ia = match jget_u64(j, "isActive") {
            Some(n) => {
                if n <= 255 {
                    n as u8
                } else {
                    return None;
                }
            },
            None => {
                return None;
            },
        };
        Some(Participant { name: FspId(name), id, created: DateTime(created), is_active: ia, accounts })
    }
}

/// One account with balances, as `GET /participants/{name}/accounts`
/// returns it. Wire keys: `id`, `ledgerAccountType`, `currency`,
/// `isActive`, `value`, `reservedValue`, `changedDate`.
#[derive(Debug, Clone)]
pub struct DfspAccount {
    pub id: SettlementAccountId,
    pub ledger_account_type: AnyAccountType,
    pub currency: Currency,
    pub is_active: u8,
    pub value: Amount,
    pub reserved_value: Amount,
    pub changed_date: DateTime,
}

pub type DfspAccounts = Vec<DfspAccount>;

pub open spec fn dfsp_account_shape(j: JsonVal) -> bool {
    &&& participant_account_shape(j)
    &&& match crate::json::get_num(j, "value"@) {
        Some(t) => crate::types::valid_amount(t),
        None => false,
    }
    &&& match crate::json::get_num(j, "reservedValue"@) {
        Some(t) => crate::types::valid_amount(t),
        None => false,
    }
    &&& get_str(j, "changedDate"@) is Some
}

pub open spec fn dfsp_account_rel(a: DfspAccount, j: JsonVal) -> bool {
    &&& get_u64(j, "id"@) == Some(a.id.0)
    &&& match get_str(j, "ledgerAccountType"@) {
        Some(s) => any_account_type_of(s) == Some(a.ledger_account_type),
        None => false,
    }
    &&& get_str(j, "currency"@) == Some(a.currency@)
    &&& get_u64(j, "isActive"@) == Some(a.is_active as u64)
    &&& crate::json::get_num(j, "value"@) == Some(a.value@)
    &&& crate::json::get_num(j, "reservedValue"@) == Some(a.reserved_value@)
    &&& get_str(j, "changedDate"@) == Some(a.changed_date@)
}

impl DfspAccount {
    pub fn from_json(j: &Json) -> (r: Option<DfspAccount>)
        ensures
            r is Some <==> dfsp_account_shape(j@),
            r matches Some(a) ==> dfsp_account_rel(a, j@),
    {
        let base = match ParticipantAccount::from_json(j) {
            Some(a) => a,
            None => {
                return None;
            },
        };
        let value = match crate::json::jget_num(j, "value") {
            Some(t) => match Amount::from_decimal_str(t.as_str()) {
                Some(a) => a,
                None => {
                    return None;
                },
            },
            None => {
                return None;
            },
        };
        let reserved = match crate::json::jget_num(j, "reservedValue") {
            Some(t) => match Amount::from_decimal_str(t.as_str()) {
                Some(a) => a,
                None => {
                    return None;
                },
            },
            None => {
                return None;
            },
        };
        let changed = match jget_str(j, "changedDate") {
            Some(s) => s,
            None => {
                return None;
            },
        };
        Some(
            DfspAccount {
                id: base.id,
                ledger_account_type: base.ledger_account_type,
                currency: base.currency,
                is_active: base.is_active,
                value,
                reserved_value: reserved,
                changed_date: DateTime(changed),
            },
        )
    }
}

/// Whether a currency account is active; the body of
/// `PUT /participants/{name}/accounts/{id}`. Wire key: `isActive`.
#[derive(Debug, Clone, Copy)]
pub struct CurrencyIsActive {
    pub is_active: bool,
}

pub open spec fn currency_is_active_model(v: CurrencyIsActive) -> JsonVal {
    JsonVal::Obj(seq![("isActive"@, JsonVal::Bool(v.is_active))])
}

impl CurrencyIsActive {
    pub fn to_json(&self) -> (r: Json)
        ensures
            r@ == currency_is_active_model(*self),
    {
        let mut ms: Vec<(String, Json)> = Vec::new();
        ms.push(("isActive".to_owned(), Json::Bool(self.is_active)));
        let r = Json::Obj(ms);
        proof {
            lemma_jobj_view(r->Obj_0, 0);
            assert(r@->Obj_0 =~= currency_is_active_model(*self)->Obj_0);
        }
        r
    }
}

/// A participant limit with its currency. Wire keys: `currency`, `limit`.
#[derive(Debug, Clone)]
pub struct NewParticipantLimit {
    pub currency: Currency,
    pub limit: ParticipantLimit,
}

pub open spec fn new_participant_limit_model(l: NewParticipantLimit) -> JsonVal {
    JsonVal::Obj(
        seq![
            ("currency"@, JsonVal::Str(l.currency@)),
            ("limit"@, participant_limit_model(l.limit)),
        ],
    )
}

pub open spec fn new_participant_limit_shape(j: JsonVal) -> bool {
    &&& match get_str(j, "currency"@) {
        Some(s) => valid_currency(s),
        None => false,
    }
    &&& match crate::json::get_field(j, "limit"@) {
        Some(l) => participant_limit_shape(l),
        None => false,
    }
}

pub open spec fn new_participant_limit_rel(l: NewParticipantLimit, j: JsonVal) -> bool {
    &&& get_str(j, "currency"@) == Some(l.currency@)
    &&& match crate::json::get_field(j, "limit"@) {
        Some(lj) => participant_limit_rel(l.limit, lj),
        None => false,
    }
}

impl NewParticipantLimit {
    pub fn to_json(&self) -> (r: Json)
        ensures
            r@ == new_participant_limit_model(*self),
    {
        let mut ms: Vec<(String, Json)> = Vec::new();
        ms.push(("currency".to_owned(), Json::Str(self.currency.code().to_owned())));
        ms.push(("limit".to_owned(), self.limit.to_json()));
        let r = Json::Obj(ms);
        proof {
            lemma_jobj_view(r->Obj_0, 0);
            assert(r@->Obj_0 =~= new_participant_limit_model(*self)->Obj_0);
        }
        r
    }

    pub fn from_json(j: &Json) -> (r: Option<NewParticipantLimit>)
        ensures
            r is Some <==> new_participant_limit_shape(j@),
            r matches Some(l) ==> new_participant_limit_rel(l, j@),
    {
        let cur = match jget_str(j, "currency") {
            Some(s) => match Currency::from_code(s.as_str()) {
                Some(c) => c,
                None => {
                    return None;
                },
            },
            None => {
                return None;
            },
        };
        let limit = match jget(j, "limit") {
            Some(lj) => match ParticipantLimit::from_json(lj) {
                Some(l) => l,
                None => {
                    return None;
                },
            },
            None => {
                return None;
            },
        };
        Some(NewParticipantLimit { currency: cur, limit })
    }
}

/// An FSPIOP callback endpoint category.
#[derive(Debug, Clone, Copy, PartialEq, Eq, Structural)]
pub enum FspiopCallbackType {
    FspiopCallbackUrlParticipantBatchPut,
    FspiopCallbackUrlParticipantBatchPutError,
    FspiopCallbackUrlParticipantPut,
    FspiopCallbackUrlParticipantPutError,
    FspiopCallbackUrlPartiesGet,
    FspiopCallbackUrlPartiesPut,
    FspiopCallbackUrlPartiesPutError,
    FspiopCallbackUrlQuotes,
    FspiopCallbackUrlTransferError,
    FspiopCallbackUrlTransferPost,
    FspiopCallbackUrlTransferPut,
}

pub open spec fn callback_type_str(v: FspiopCallbackType) -> Seq<char> {
    match v {
        FspiopCallbackType::FspiopCallbackUrlParticipantBatchPut => "FSPIOP_CALLBACK_URL_PARTICIPANT_BATCH_PUT"@,
        FspiopCallbackType::FspiopCallbackUrlParticipantBatchPutError => "FSPIOP_CALLBACK_URL_PARTICIPANT_BATCH_PUT_ERROR"@,
        FspiopCallbackType::FspiopCallbackUrlParticipantPut => "FSPIOP_CALLBACK_URL_PARTICIPANT_PUT"@,
        FspiopCallbackType::FspiopCallbackUrlParticipantPutError => "FSPIOP_CALLBACK_URL_PARTICIPANT_PUT_ERROR"@,
        FspiopCallbackType::FspiopCallbackUrlPartiesGet => "FSPIOP_CALLBACK_URL_PARTIES_GET"@,
        FspiopCallbackType::FspiopCallbackUrlPartiesPut => "FSPIOP_CALLBACK_URL_PARTIES_PUT"@,
        FspiopCallbackType::FspiopCallbackUrlPartiesPutError => "FSPIOP_CALLBACK_URL_PARTIES_PUT_ERROR"@,
        FspiopCallbackType::FspiopCallbackUrlQuotes => "FSPIOP_CALLBACK_URL_QUOTES"@,
        FspiopCallbackType::FspiopCallbackUrlTransferError => "FSPIOP_CALLBACK_URL_TRANSFER_ERROR"@,
        FspiopCallbackType::FspiopCallbackUrlTransferPost => "FSPIOP_CALLBACK_URL_TRANSFER_POST"@,
        FspiopCallbackType::FspiopCallbackUrlTransferPut => "FSPIOP_CALLBACK_URL_TRANSFER_PUT"@,
    }
}

pub open spec fn callback_type_of(s: Seq<char>) -> Option<FspiopCallbackType> {
    if s == "FSPIOP_CALLBACK_URL_PARTICIPANT_BATCH_PUT"@ {
        Some(FspiopCallbackType::FspiopCallbackUrlParticipantBatchPut)
    } else if s == "FSPIOP_CALLBACK_URL_PARTICIPANT_BATCH_PUT_ERROR"@ {
        Some(FspiopCallbackType::FspiopCallbackUrlParticipantBatchPutError)
    } else if s == "FSPIOP_CALLBACK_URL_PARTICIPANT_PUT"@ {
        Some(FspiopCallbackType::FspiopCallbackUrlParticipantPut)
    } else if s == "FSPIOP_CALLBACK_URL_PARTICIPANT_PUT_ERROR"@ {
        Some(FspiopCallbackType::FspiopCallbackUrlParticipantPutError)
    } else if s == "FSPIOP_CALLBACK_URL_PARTIES_GET"@ {
        Some(FspiopCallbackType::FspiopCallbackUrlPartiesGet)
    } else if s == "FSPIOP_CALLBACK_URL_PARTIES_PUT"@ {
        Some(FspiopCallbackType::FspiopCallbackUrlPartiesPut)
    } else if s == "FSPIOP_CALLBACK_URL_PARTIES_PUT_ERROR"@ {
        Some(FspiopCallbackType::FspiopCallbackUrlPartiesPutError)
    } else if s == "FSPIOP_CALLBACK_URL_QUOTES"@ {
        Some(FspiopCallbackType::FspiopCallbackUrlQuotes)
    } else if s == "FSPIOP_CALLBACK_URL_TRANSFER_ERROR"@ {
        Some(FspiopCallbackType::FspiopCallbackUrlTransferError)
    } else if s == "FSPIOP_CALLBACK_URL_TRANSFER_POST"@ {
        Some(FspiopCallbackType::FspiopCallbackUrlTransferPost)
    } else if s == "FSPIOP_CALLBACK_URL_TRANSFER_PUT"@ {
        Some(FspiopCallbackType::FspiopCallbackUrlTransferPut)
    } else {
        None
    }
}

impl FspiopCallbackType {
    pub fn wire_name(&self) -> (r: &'static str)
        ensures
            r@ == callback_type_str(*self),
    {
        match self {
            FspiopCallbackType::FspiopCallbackUrlParticipantBatchPut => "FSPIOP_CALLBACK_URL_PARTICIPANT_BATCH_PUT",
            FspiopCallbackType::FspiopCallbackUrlParticipantBatchPutError => "FSPIOP_CALLBACK_URL_PARTICIPANT_BATCH_PUT_ERROR",
            FspiopCallbackType::FspiopCallbackUrlParticipantPut => "FSPIOP_CALLBACK_URL_PARTICIPANT_PUT",
            FspiopCallbackType::FspiopCallbackUrlParticipantPutError => "FSPIOP_CALLBACK_URL_PARTICIPANT_PUT_ERROR",
            FspiopCallbackType::FspiopCallbackUrlPartiesGet => "FSPIOP_CALLBACK_URL_PARTIES_GET",
            FspiopCallbackType::FspiopCallbackUrlPartiesPut => "FSPIOP_CALLBACK_URL_PARTIES_PUT",
            FspiopCallbackType::FspiopCallbackUrlPartiesPutError => "FSPIOP_CALLBACK_URL_PARTIES_PUT_ERROR",
            FspiopCallbackType::FspiopCallbackUrlQuotes => "FSPIOP_CALLBACK_URL_QUOTES",
            FspiopCallbackType::FspiopCallbackUrlTransferError => "FSPIOP_CALLBACK_URL_TRANSFER_ERROR",
            FspiopCallbackType::FspiopCallbackUrlTransferPost => "FSPIOP_CALLBACK_URL_TRANSFER_POST",
            FspiopCallbackType::FspiopCallbackUrlTransferPut => "FSPIOP_CALLBACK_URL_TRANSFER_PUT",
        }
    }

    pub fn from_wire(s: &str) -> (r: Option<FspiopCallbackType>)
        ensures
            r == callback_type_of(s@),
    {
        if str_eq(s, "FSPIOP_CALLBACK_URL_PARTICIPANT_BATCH_PUT") {
            Some(FspiopCallbackType::FspiopCallbackUrlParticipantBatchPut)
        } else if str_eq(s, "FSPIOP_CALLBACK_URL_PARTICIPANT_BATCH_PUT_ERROR") {
            Some(FspiopCallbackType::FspiopCallbackUrlParticipantBatchPutError)
        } else if str_eq(s, "FSPIOP_CALLBACK_URL_PARTICIPANT_PUT") {
            Some(FspiopCallbackType::FspiopCallbackUrlParticipantPut)
        } else if str_eq(s, "FSPIOP_CALLBACK_URL_PARTICIPANT_PUT_ERROR") {
            Some(FspiopCallbackType::FspiopCallbackUrlParticipantPutError)
        } else if str_eq(s, "FSPIOP_CALLBACK_URL_PARTIES_GET") {
            Some(FspiopCallbackType::FspiopCallbackUrlPartiesGet)
        } else if str_eq(s, "FSPIOP_CALLBACK_URL_PARTIES_PUT") {
            Some(FspiopCallbackType::FspiopCallbackUrlPartiesPut)
        } else if str_eq(s, "FSPIOP_CALLBACK_URL_PARTIES_PUT_ERROR") {
            Some(FspiopCallbackType::FspiopCallbackUrlPartiesPutError)
        } else if str_eq(s, "FSPIOP_CALLBACK_URL_QUOTES") {
            Some(FspiopCallbackType::FspiopCallbackUrlQuotes)
        } else if str_eq(s, "FSPIOP_CALLBACK_URL_TRANSFER_ERROR") {
            Some(FspiopCallbackType::FspiopCallbackUrlTransferError)
        } else if str_eq(s, "FSPIOP_CALLBACK_URL_TRANSFER_POST") {
            Some(FspiopCallbackType::FspiopCallbackUrlTransferPost)
        } else if str_eq(s, "FSPIOP_CALLBACK_URL_TRANSFER_PUT") {
            Some(FspiopCallbackType::FspiopCallbackUrlTransferPut)
        } else {
            None
        }
    }
}

/// The path template the remote platform expects for one callback type.
pub open spec fn callback_path(t: FspiopCallbackType) -> Seq<char> {
    match t {
        FspiopCallbackType::FspiopCallbackUrlParticipantBatchPut => "/participants/{{requestId}}"@,
        FspiopCallbackType::FspiopCallbackUrlParticipantBatchPutError => "/participants/{{requestId}}/error"@,
        FspiopCallbackType::FspiopCallbackUrlParticipantPut => "/participants/{{partyIdType}}/{{partyIdentifier}}"@,
        FspiopCallbackType::FspiopCallbackUrlParticipantPutError => "/participants/{{partyIdType}}/{{partyIdentifier}}/error"@,
        FspiopCallbackType::FspiopCallbackUrlPartiesGet => "/parties/{{partyIdType}}/{{partyIdentifier}}"@,
        FspiopCallbackType::FspiopCallbackUrlPartiesPut => "/parties/{{partyIdType}}/{{partyIdentifier}}"@,
        FspiopCallbackType::FspiopCallbackUrlPartiesPutError => "/parties/{{partyIdType}}/{{partyIdentifier}}/error"@,
        FspiopCallbackType::FspiopCallbackUrlQuotes => ""@,
        FspiopCallbackType::FspiopCallbackUrlTransferError => "/transfers/{{transferId}}/error"@,
        FspiopCallbackType::FspiopCallbackUrlTransferPost => "/transfers"@,
        FspiopCallbackType::FspiopCallbackUrlTransferPut => "/transfers/{{transferId}}"@,
    }
}

/// The path template appended to a callback host for each callback type.
pub fn get_callback_path(callback_type: FspiopCallbackType) -> (r: &'static str)
    ensures
        r@ == callback_path(callback_type),
{
    match callback_type {
        FspiopCallbackType::FspiopCallbackUrlParticipantBatchPut => "/participants/{{requestId}}",
        FspiopCallbackType::FspiopCallbackUrlParticipantBatchPutError => "/participants/{{requestId}}/error",
        FspiopCallbackType::FspiopCallbackUrlParticipantPut => "/participants/{{partyIdType}}/{{partyIdentifier}}",
        FspiopCallbackType::FspiopCallbackUrlParticipantPutError => "/participants/{{partyIdType}}/{{partyIdentifier}}/error",
        FspiopCallbackType::FspiopCallbackUrlPartiesGet => "/parties/{{partyIdType}}/{{partyIdentifier}}",
        FspiopCallbackType::FspiopCallbackUrlPartiesPut => "/parties/{{partyIdType}}/{{partyIdentifier}}",
        FspiopCallbackType::FspiopCallbackUrlPartiesPutError => "/parties/{{partyIdType}}/{{partyIdentifier}}/error",
        FspiopCallbackType::FspiopCallbackUrlQuotes => "",
        FspiopCallbackType::FspiopCallbackUrlTransferError => "/transfers/{{transferId}}/error",
        FspiopCallbackType::FspiopCallbackUrlTransferPost => "/transfers",
        FspiopCallbackType::FspiopCallbackUrlTransferPut => "/transfers/{{transferId}}",
    }
}

/// A callback endpoint binding. Wire keys: `type`, `value`.
#[derive(Debug, Clone)]
pub struct CallbackUrl {
    pub callback_type: FspiopCallbackType,
    pub value: String,
}

pub type CallbackUrls = Vec<CallbackUrl>;

pub open spec fn callback_url_model(c: CallbackUrl) -> JsonVal {
    JsonVal::Obj(
        seq![
            ("type"@, JsonVal::Str(callback_type_str(c.callback_type))),
            ("value"@, JsonVal::Str(c.value@)),
        ],
    )
}

pub open spec fn callback_url_shape(j: JsonVal) -> bool {
    &&& match get_str(j, "type"@) {
        Some(s) => callback_type_of(s) is Some,
        None => false,
    }
    &&& get_str(j, "value"@) is Some
}

pub open spec fn callback_url_rel(c: CallbackUrl, j: JsonVal) -> bool {
    &&& match get_str(j, "type"@) {
        Some(s) => callback_type_of(s) == Some(c.callback_type),
        None => false,
    }
    &&& get_str(j, "value"@) == Some(c.value@)
}

impl CallbackUrl {
    pub fn to_json(&self) -> (r: Json)
        ensures
            r@ == callback_url_model(*self),
    {
        let mut ms: Vec<(String, Json)> = Vec::new();
        ms.push(("type".to_owned(), Json::Str(self.callback_type.wire_name().to_owned())));
        ms.push(("value".to_owned(), Json::Str(self.value.clone())));
        let r = Json::Obj(ms);
        proof {
            lemma_jobj_view(r->Obj_0, 0);
            assert(r@->Obj_0 =~= callback_url_model(*self)->Obj_0);
        }
        r
    }

    pub fn from_json(j: &Json) -> (r: Option<CallbackUrl>)
        ensures
            r is Some <==> callback_url_shape(j@),
            r matches Some(c) ==> callback_url_rel(c, j@),
    {
        let t = match jget_str(j, "type") {
            Some(s) => match FspiopCallbackType::from_wire(s.as_str()) {
                Some(v) => v,
                None => {
                    return None;
                },
            },
            None => {
                return None;
            },
        };
        let value = match jget_str(j, "value") {
            Some(s) => s,
            None => {
                return None;
            },
        };
        Some(CallbackUrl { callback_type: t, value })
    }
}

/// Reading a ledger account type's wire spelling back yields the value.
pub proof fn lemma_ledger_account_type_round_trip(v: LedgerAccountType)
    ensures
        ledger_account_type_of(ledger_account_type_str(v)) == Some(v),
{
    broadcast use vstd::string::group_string_axioms;

    reveal_strlit("POSITION");
    reveal_strlit("SETTLEMENT");
    assert("SETTLEMENT"@.len() != "POSITION"@.len());
}

/// Reading an account type's wire spelling back yields the value.
pub proof fn lemma_any_account_type_round_trip(v: AnyAccountType)
    ensures
        any_account_type_of(any_account_type_str(v)) == Some(v),
{
    broadcast use vstd::string::group_string_axioms;

    reveal_strlit("POSITION");
    reveal_strlit("SETTLEMENT");
    reveal_strlit("HUB_MULTILATERAL_SETTLEMENT");
    reveal_strlit("HUB_RECONCILIATION");
    assert("POSITION"@.len() == 8);
    assert("SETTLEMENT"@.len() == 10);
    assert("HUB_MULTILATERAL_SETTLEMENT"@.len() == 27);
    assert("HUB_RECONCILIATION"@.len() == 18);
}

/// Reading the limit type's wire spelling back yields the value.
pub proof fn lemma_limit_type_round_trip(v: LimitType)
    ensures
        limit_type_of(limit_type_str(v)) == Some(v),
{
}

/// Reading a callback type's wire spelling back yields the value.
pub proof fn lemma_callback_type_round_trip(v: FspiopCallbackType)
    ensures
        callback_type_of(callback_type_str(v)) == Some(v),
{
    reveal_strlit("FSPIOP_CALLBACK_URL_PARTICIPANT_BATCH_PUT");
    reveal_strlit("FSPIOP_CALLBACK_URL_PARTICIPANT_BATCH_PUT_ERROR");
    reveal_strlit("FSPIOP_CALLBACK_URL_PARTICIPANT_PUT");
    reveal_strlit("FSPIOP_CALLBACK_URL_PARTICIPANT_PUT_ERROR");
    reveal_strlit("FSPIOP_CALLBACK_URL_PARTIES_GET");
    reveal_strlit("FSPIOP_CALLBACK_URL_PARTIES_PUT");
    reveal_strlit("FSPIOP_CALLBACK_URL_PARTIES_PUT_ERROR");
    reveal_strlit("FSPIOP_CALLBACK_URL_QUOTES");
    reveal_strlit("FSPIOP_CALLBACK_URL_TRANSFER_ERROR");
    reveal_strlit("FSPIOP_CALLBACK_URL_TRANSFER_POST");
    reveal_strlit("FSPIOP_CALLBACK_URL_TRANSFER_PUT");
    assert("FSPIOP_CALLBACK_URL_PARTICIPANT_BATCH_PUT"@.len() == 41);
    assert("FSPIOP_CALLBACK_URL_PARTICIPANT_BATCH_PUT_ERROR"@.len() == 47);
    assert("FSPIOP_CALLBACK_URL_PARTICIPANT_PUT"@.len() == 35);
    assert("FSPIOP_CALLBACK_URL_PARTICIPANT_PUT_ERROR"@.len() == 41);
    assert("FSPIOP_CALLBACK_URL_PARTIES_GET"@.len() == 31);
    assert("FSPIOP_CALLBACK_URL_PARTIES_PUT"@.len() == 31);
    assert("FSPIOP_CALLBACK_URL_PARTIES_PUT_ERROR"@.len() == 37);
    assert("FSPIOP_CALLBACK_URL_QUOTES"@.len() == 26);
    assert("FSPIOP_CALLBACK_URL_TRANSFER_ERROR"@.len() == 34);
    assert("FSPIOP_CALLBACK_URL_TRANSFER_POST"@.len() == 33);
    assert("FSPIOP_CALLBACK_URL_TRANSFER_PUT"@.len() == 32);
    assert("FSPIOP_CALLBACK_URL_PARTICIPANT_PUT_ERROR"@[32]
        != "FSPIOP_CALLBACK_URL_PARTICIPANT_BATCH_PUT"@[32]);
    assert("FSPIOP_CALLBACK_URL_PARTIES_PUT"@[28] != "FSPIOP_CALLBACK_URL_PARTIES_GET"@[28]);
}

/// A limit's own wire object decodes back to it: the decode relation
/// holds of the limit and its encoding.
pub proof fn lemma_participant_limit_round_trip(l: ParticipantLimit)
    ensures
        participant_limit_shape(participant_limit_model(l)),
        participant_limit_rel(l, participant_limit_model(l)),
{
    let j = participant_limit_model(l);
    let ms = j->Obj_0;
    broadcast use vstd::string::group_string_axioms;

    reveal_strlit("type");
    reveal_strlit("value");
    reveal_strlit("alarmPercentage");
    assert("type"@.len() == 4);
    assert("value"@.len() == 5);
    assert("alarmPercentage"@.len() == 15);
    lemma_limit_type_round_trip(l.limit_type);
    crate::text::lemma_dec_round_trip(l.value as nat);
    crate::text::lemma_dec_round_trip(l.alarm_percentage as nat);
    assert(crate::json::obj_get(ms, "type"@) == Some(
        JsonVal::Str(limit_type_str(l.limit_type)),
    ));
    assert(ms.drop_first() =~= seq![
        ("value"@, JsonVal::Num(spec_dec(l.value as nat))),
        ("alarmPercentage"@, JsonVal::Num(spec_dec(l.alarm_percentage as nat))),
    ]);
    assert(crate::json::obj_get(ms.drop_first(), "value"@) == Some(
        JsonVal::Num(spec_dec(l.value as nat)),
    ));
    assert(ms.drop_first().drop_first() =~= seq![
        ("alarmPercentage"@, JsonVal::Num(spec_dec(l.alarm_percentage as nat))),
    ]);
    assert(crate::json::obj_get(ms.drop_first().drop_first(), "alarmPercentage"@) == Some(
        JsonVal::Num(spec_dec(l.alarm_percentage as nat)),
    ));
    assert(crate::json::obj_get(ms.drop_first(), "alarmPercentage"@) == Some(
        JsonVal::Num(spec_dec(l.alarm_percentage as nat)),
    ));
}

/// A limit-with-currency's own wire object decodes back to it.
pub proof fn lemma_new_participant_limit_round_trip(l: NewParticipantLimit)
    requires
        l.currency.wf(),
    ensures
        new_participant_limit_shape(new_participant_limit_model(l)),
        new_participant_limit_rel(l, new_participant_limit_model(l)),
{
    let j = new_participant_limit_model(l);
    let ms = j->Obj_0;
    broadcast use vstd::string::group_string_axioms;

    reveal_strlit("currency");
    reveal_strlit("limit");
    assert("currency"@.len() == 8);
    assert("limit"@.len() == 5);
    lemma_participant_limit_round_trip(l.limit);
    assert(crate::json::obj_get(ms, "currency"@) == Some(JsonVal::Str(l.currency@)));
    assert(ms.drop_first() =~= seq![("limit"@, participant_limit_model(l.limit))]);
    assert(crate::json::obj_get(ms.drop_first(), "limit"@) == Some(
        participant_limit_model(l.limit),
    ));
}

/// A callback binding's own wire object decodes back to it.
pub proof fn lemma_callback_url_round_trip(c: CallbackUrl)
    ensures
        callback_url_shape(callback_url_model(c)),
        callback_url_rel(c, callback_url_model(c)),
{
    let j = callback_url_model(c);
    let ms = j->Obj_0;
    broadcast use vstd::string::group_string_axioms;

    reveal_strlit("type");
    reveal_strlit("value");
    assert("type"@.len() == 4);
    assert("value"@.len() == 5);
    lemma_callback_type_round_trip(c.callback_type);
    assert(crate::json::obj_get(ms, "type"@) == Some(
        JsonVal::Str(callback_type_str(c.callback_type)),
    ));
    assert(ms.drop_first() =~= seq![("value"@, JsonVal::Str(c.value@))]);
    assert(crate::json::obj_get(ms.drop_first(), "value"@) == Some(JsonVal::Str(c.value@)));
}

/// Lists all participants.
#[derive(Debug, Clone)]
pub struct GetParticipants {}

impl GetParticipants {
    /// GET `/participants`, expecting the participant list.
    pub fn to_wire(&self) -> (r: WireRequest)
        ensures
            r.method == Method::GET,
            r.service == MojaloopService::CentralLedger,
            r.path@ == "/participants"@,
            r.body is None,
            r.response_tag == ResponseTag::Participants,
    {
        WireRequest {
            method: Method::GET,
            service: MojaloopService::CentralLedger,
            path: "/participants".to_owned(),
            body: None,
            response_tag: ResponseTag::Participants,
        }
    }
}

/// Creates a hub account.
#[derive(Debug, Clone)]
pub struct PostHubAccount {
    pub account: HubAccount,
    pub name: FspId,
}

impl PostHubAccount {
    /// POST `/participants/{name}/accounts` with the account object.
    pub fn to_wire(&self) -> (r: WireRequest)
        ensures
            r.method == Method::POST,
            r.service == MojaloopService::CentralLedger,
            r.path@ == "/participants/"@ + encoded(self.name@) + "/accounts"@,
            r.body matches Some(b) && b@ == json_text(hub_account_model(self.account)),
            r.response_tag == ResponseTag::NoBody,
    {
        let mut path = "/participants/".to_owned();
        path.append(percent_encode(self.name.0.as_str()).as_str());
        path.append("/accounts");
        WireRequest {
            method: Method::POST,
            service: MojaloopService::CentralLedger,
            path,
            body: Some(json_write(&self.account.to_json())),
            response_tag: ResponseTag::NoBody,
        }
    }
}

/// Registers a participant.
#[derive(Debug, Clone)]
pub struct PostParticipant {
    pub participant: NewParticipant,
}

impl PostParticipant {
    /// POST `/participants` with the new participant, expecting the
    /// created participant back.
    pub fn to_wire(&self) -> (r: WireRequest)
        ensures
            r.method == Method::POST,
            r.service == MojaloopService::CentralLedger,
            r.path@ == "/participants"@,
            r.body matches Some(b) && b@ == json_text(new_participant_model(self.participant)),
            r.response_tag == ResponseTag::Participant,
    {
        WireRequest {
            method: Method::POST,
            service: MojaloopService::CentralLedger,
            path: "/participants".to_owned(),
            body: Some(json_write(&self.participant.to_json())),
            response_tag: ResponseTag::Participant,
        }
    }
}

/// Sets a participant's initial position and limits.
#[derive(Debug, Clone)]
pub struct PostInitialPositionAndLimits {
    pub initial_position_and_limits: InitialPositionAndLimits,
    pub name: FspId,
}

impl PostInitialPositionAndLimits {
    /// POST `/participants/{name}/initialPositionAndLimits`.
    pub fn to_wire(&self) -> (r: WireRequest)
        ensures
            r.method == Method::POST,
            r.service == MojaloopService::CentralLedger,
            r.path@ == "/participants/"@ + encoded(self.name@) + "/initialPositionAndLimits"@,
            r.body matches Some(b) && b@ == json_text(
                initial_position_and_limits_model(self.initial_position_and_limits),
            ),
            r.response_tag == ResponseTag::NoBody,
    {
        let mut path = "/participants/".to_owned();
        path.append(percent_encode(self.name.0.as_str()).as_str());
        path.append("/initialPositionAndLimits");
        WireRequest {
            method: Method::POST,
            service: MojaloopService::CentralLedger,
            path,
            body: Some(json_write(&self.initial_position_and_limits.to_json())),
            response_tag: ResponseTag::NoBody,
        }
    }
}

/// Lists a participant's callback endpoints.
#[derive(Debug, Clone)]
pub struct GetCallbackUrls {
    pub name: FspId,
}

impl GetCallbackUrls {
    /// GET `/participants/{name}/endpoints`.
    pub fn to_wire(&self) -> (r: WireRequest)
        ensures
            r.method == Method::GET,
            r.service == MojaloopService::CentralLedger,
            r.path@ == "/participants/"@ + encoded(self.name@) + "/endpoints"@,
            r.body is None,
            r.response_tag == ResponseTag::CallbackUrls,
    {
        let mut path = "/participants/".to_owned();
        path.append(percent_encode(self.name.0.as_str()).as_str());
        path.append("/endpoints");
        WireRequest {
            method: Method::GET,
            service: MojaloopService::CentralLedger,
            path,
            body: None,
            response_tag: ResponseTag::CallbackUrls,
        }
    }
}

/// Lists a participant's accounts.
#[derive(Debug, Clone)]
pub struct GetDfspAccounts {
    pub name: FspId,
}

impl GetDfspAccounts {
    /// GET `/participants/{name}/accounts`.
    pub fn to_wire(&self) -> (r: WireRequest)
        ensures
            r.method == Method::GET,
            r.service == MojaloopService::CentralLedger,
            r.path@ == "/participants/"@ + encoded(self.name@) + "/accounts"@,
            r.body is None,
            r.response_tag == ResponseTag::DfspAccounts,
    {
        let mut path = "/participants/".to_owned();
        path.append(percent_encode(self.name.0.as_str()).as_str());
        path.append("/accounts");
        WireRequest {
            method: Method::GET,
            service: MojaloopService::CentralLedger,
            path,
            body: None,
            response_tag: ResponseTag::DfspAccounts,
        }
    }
}

/// Reads a participant's limits.
#[derive(Debug, Clone)]
pub struct GetParticipantLimits {
    pub name: FspId,
}

impl GetParticipantLimits {
    /// GET `/participants/{name}/limits`, expecting the limit list.
    pub fn to_wire(&self) -> (r: WireRequest)
        ensures
            r.method == Method::GET,
            r.service == MojaloopService::CentralLedger,
            r.path@ == "/participants/"@ + encoded(self.name@) + "/limits"@,
            r.body is None,
            r.response_tag == ResponseTag::ParticipantLimits,
    {
        let mut path = "/participants/".to_owned();
        path.append(percent_encode(self.name.0.as_str()).as_str());
        path.append("/limits");
        WireRequest {
            method: Method::GET,
            service: MojaloopService::CentralLedger,
            path,
            body: None,
            response_tag: ResponseTag::ParticipantLimits,
        }
    }
}

/// Sets a participant limit.
#[derive(Debug, Clone)]
pub struct PutParticipantLimit {
    pub name: FspId,
    pub limit: NewParticipantLimit,
}

impl PutParticipantLimit {
    /// PUT `/participants/{name}/limits` with the limit object.
    pub fn to_wire(&self) -> (r: WireRequest)
        ensures
            r.method == Method::PUT,
            r.service == MojaloopService::CentralLedger,
            r.path@ == "/participants/"@ + encoded(self.name@) + "/limits"@,
            r.body matches Some(b) && b@ == json_text(new_participant_limit_model(self.limit)),
            r.response_tag == ResponseTag::NoBody,
    {
        let mut path = "/participants/".to_owned();
        path.append(percent_encode(self.name.0.as_str()).as_str());
        path.append("/limits");
        WireRequest {
            method: Method::PUT,
            service: MojaloopService::CentralLedger,
            path,
            body: Some(json_write(&self.limit.to_json())),
            response_tag: ResponseTag::NoBody,
        }
    }
}

/// Activates or deactivates one participant account.
#[derive(Debug, Clone)]
pub struct PutParticipantAccount {
    pub name: FspId,
    pub account_id: SettlementAccountId,
    pub set_active: bool,
}

impl PutParticipantAccount {
    /// PUT `/participants/{name}/accounts/{accountId}` with the activation
    /// flag.
    pub fn to_wire(&self) -> (r: WireRequest)
        ensures
            r.method == Method::PUT,
            r.service == MojaloopService::CentralLedger,
            r.path@ == "/participants/"@ + encoded(self.name@) + "/accounts/"@ + spec_dec(
                self.account_id.0 as nat,
            ),
            r.body matches Some(b) && b@ == json_text(
                currency_is_active_model(CurrencyIsActive { is_active: self.set_active }),
            ),
            r.response_tag == ResponseTag::NoBody,
    {
        let mut path = "/participants/".to_owned();
        path.append(percent_encode(self.name.0.as_str()).as_str());
        path.append("/accounts/");
        path.append(u64_to_dec(self.account_id.0).as_str());
        let body = CurrencyIsActive { is_active: self.set_active };
        WireRequest {
            method: Method::PUT,
            service: MojaloopService::CentralLedger,
            path,
            body: Some(json_write(&body.to_json())),
            response_tag: ResponseTag::NoBody,
        }
    }
}

/// Records a settlement funds movement on one account.
#[derive(Debug, Clone)]
pub struct PostParticipantSettlementFunds {
    pub account_id: SettlementAccountId,
    pub name: FspId,
    pub funds: ParticipantFundsInOut,
}

impl PostParticipantSettlementFunds {
    /// POST `/participants/{name}/accounts/{accountId}` with the funds
    /// movement.
    pub fn to_wire(&self) -> (r: WireRequest)
        ensures
            r.method == Method::POST,
            r.service == MojaloopService::CentralLedger,
            r.path@ == "/participants/"@ + encoded(self.name@) + "/accounts/"@ + spec_dec(
                self.account_id.0 as nat,
            ),
            r.body matches Some(b) && b@ == json_text(funds_in_out_model(self.funds)),
            r.response_tag == ResponseTag::NoBody,
    {
        let mut path = "/participants/".to_owned();
        path.append(percent_encode(self.name.0.as_str()).as_str());
        path.append("/accounts/");
        path.append(u64_to_dec(self.account_id.0).as_str());
        WireRequest {
            method: Method::POST,
            service: MojaloopService::CentralLedger,
            path,
            body: Some(json_write(&self.funds.to_json())),
            response_tag: ResponseTag::NoBody,
        }
    }
}

/// Registers one callback endpoint for a participant.
#[derive(Debug, Clone)]
pub struct PostCallbackUrl {
    pub name: FspId,
    pub callback_type: FspiopCallbackType,
    pub hostname: String,
}

impl PostCallbackUrl {
    /// POST `/participants/{name}/endpoints` with the callback binding;
    /// the endpoint value is the host followed by the type's path
    /// template.
    pub fn to_wire(&self) -> (r: WireRequest)
        ensures
            r.method == Method::POST,
            r.service == MojaloopService::CentralLedger,
            r.path@ == "/participants/"@ + encoded(self.name@) + "/endpoints"@,
            r.body matches Some(b) && b@ == json_text(
                JsonVal::Obj(
                    seq![
                        ("type"@, JsonVal::Str(callback_type_str(self.callback_type))),
                        (
                            "value"@,
                            JsonVal::Str(self.hostname@ + callback_path(self.callback_type)),
                        ),
                    ],
                ),
            ),
            r.response_tag == ResponseTag::NoBody,
    {
        let mut path = "/participants/".to_owned();
        path.append(percent_encode(self.name.0.as_str()).as_str());
        path.append("/endpoints");
        let mut value = self.hostname.clone();
        value.append(get_callback_path(self.callback_type));
        let cb = CallbackUrl { callback_type: self.callback_type, value };
        WireRequest {
            method: Method::POST,
            service: MojaloopService::CentralLedger,
            path,
            body: Some(json_write(&cb.to_json())),
            response_tag: ResponseTag::NoBody,
        }
    }
}

} // verus!
