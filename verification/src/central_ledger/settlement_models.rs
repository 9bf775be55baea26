//! Settlement model administration: the record that creates a settlement
//! model and its enumerated categories.

use crate::common::{Method, MojaloopService, ResponseTag, WireRequest};
use crate::json::{json_text, json_write, lemma_jobj_view, Json, JsonVal};
use crate::types::Currency;
use vstd::prelude::*;

verus! {

/// Whether transfers settle one by one or netted.
#[derive(Debug, Clone, Copy, PartialEq, Eq, Structural)]
pub enum SettlementGranularity {
    Gross,
    Net,
}

pub open spec fn settlement_granularity_str(v: SettlementGranularity) -> Seq<char> {
    match v {
        SettlementGranularity::Gross => "GROSS"@,
        SettlementGranularity::Net => "NET"@,
    }
}

impl SettlementGranularity {
    pub fn wire_name(&self) -> (r: &'static str)
        ensures
            r@ == settlement_granularity_str(*self),
    {
        match self {
            SettlementGranularity::Gross => "GROSS",
            SettlementGranularity::Net => "NET",
        }
    }
}

/// Whether settlement is pairwise or across all participants.
#[derive(Debug, Clone, Copy, PartialEq, Eq, Structural)]
pub enum SettlementInterchange {
    Bilateral,
    Multilateral,
}

pub open spec fn settlement_interchange_str(v: SettlementInterchange) -> Seq<char> {
    match v {
        SettlementInterchange::Bilateral => "BILATERAL"@,
        SettlementInterchange::Multilateral => "MULTILATERAL"@,
    }
}

impl SettlementInterchange {
    pub fn wire_name(&self) -> (r: &'static str)
        ensures
            r@ == settlement_interchange_str(*self),
    {
        match self {
            SettlementInterchange::Bilateral => "BILATERAL",
            SettlementInterchange::Multilateral => "MULTILATERAL",
        }
    }
}

/// When settlement happens.
#[derive(Debug, Clone, Copy, PartialEq, Eq, Structural)]
pub enum SettlementDelay {
    Deferred,
    Immediate,
}

pub open spec fn settlement_delay_str(v: SettlementDelay) -> Seq<char> {
    match v {
        SettlementDelay::Deferred => "DEFERRED"@,
        SettlementDelay::Immediate => "IMMEDIATE"@,
    }
}

impl SettlementDelay {
    pub fn wire_name(&self) -> (r: &'static str)
        ensures
            r@ == settlement_delay_str(*self),
    {
        match self {
            SettlementDelay::Deferred => "DEFERRED",
            SettlementDelay::Immediate => "IMMEDIATE",
        }
    }
}

/// The ledger account type a settlement model applies to.
#[derive(Debug, Clone, Copy, PartialEq, Eq, Structural)]
pub enum LedgerAccountType {
    InterchangeFee,
    Position,
}

pub open spec fn model_ledger_account_type_str(v: LedgerAccountType) -> Seq<char> {
    match v {
        LedgerAccountType::InterchangeFee => "INTERCHANGE_FEE"@,
        LedgerAccountType::Position => "POSITION"@,
    }
}

impl LedgerAccountType {
    pub fn wire_name(&self) -> (r: &'static str)
        ensures
            r@ == model_ledger_account_type_str(*self),
    {
        match self {
            LedgerAccountType::InterchangeFee => "INTERCHANGE_FEE",
            LedgerAccountType::Position => "POSITION",
        }
    }
}

/// The settlement account type a settlement model uses.
#[derive(Debug, Clone, Copy, PartialEq, Eq, Structural)]
pub enum SettlementAccountType {
    Settlement,
    InterchangeFeeSettlement,
}

pub open spec fn settlement_account_type_str(v: SettlementAccountType) -> Seq<char> {
    match v {
        SettlementAccountType::Settlement => "SETTLEMENT"@,
        SettlementAccountType::InterchangeFeeSettlement => "INTERCHANGE_FEE_SETTLEMENT"@,
    }
}

impl SettlementAccountType {
    pub fn wire_name(&self) -> (r: &'static str)
        ensures
            r@ == settlement_account_type_str(*self),
    {
        match self {
            SettlementAccountType::Settlement => "SETTLEMENT",
            SettlementAccountType::InterchangeFeeSettlement => "INTERCHANGE_FEE_SETTLEMENT",
        }
    }
}

/// A settlement model name: at most thirty bytes of UTF-8.
#[derive(Debug, Clone)]
pub struct SettlementModelName(String);

/// Why a settlement model name was rejected.
#[derive(Debug, Clone, Copy, PartialEq, Eq, Structural)]
pub enum ParseSettlementModelNameErr {
    SettlementModelNameTooLong,
}

impl View for SettlementModelName {
    type V = Seq<char>;

    closed spec fn view(&self) -> Seq<char> {
        self.0@
    }
}

impl SettlementModelName {
    pub open spec fn wf(&self) -> bool {
        vstd::utf8::encode_utf8(self@).len() <= 30
    }

    /// Accepts a name of at most thirty bytes.
    pub fn from(item: &str) -> (r: Result<SettlementModelName, ParseSettlementModelNameErr>)
        ensures
            match r {
                Ok(n) => n@ == item@ && n.wf(),
                Err(e) => e == ParseSettlementModelNameErr::SettlementModelNameTooLong
                    && vstd::utf8::encode_utf8(item@).len() > 30,
            },
    {
        let bytes = item.as_bytes();
        if bytes.len() <= 30 {
            Ok(SettlementModelName(item.to_owned()))
        } else {
            Err(ParseSettlementModelNameErr::SettlementModelNameTooLong)
        }
    }

    pub fn name(&self) -> (r: &str)
        ensures
            r@ == self@,
    {
        self.0.as_str()
    }
}

/// A settlement model to create. Wire keys: `autoPositionReset`,
/// `ledgerAccountType`, `settlementAccountType`, `name`,
/// `requireLiquidityCheck`, `settlementDelay`, `settlementGranularity`,
/// `settlementInterchange`, `currency`.
#[derive(Debug, Clone)]
pub struct SettlementModel {
    pub auto_position_reset: bool,
    pub ledger_account_type: LedgerAccountType,
    pub settlement_account_type: SettlementAccountType,
    pub name: SettlementModelName,
    pub require_liquidity_check: bool,
    pub settlement_delay: SettlementDelay,
    pub settlement_granularity: SettlementGranularity,
    pub settlement_interchange: SettlementInterchange,
    pub currency: Currency,
}

pub open spec fn settlement_model_model(m: SettlementModel) -> JsonVal {
    JsonVal::Obj(
        seq![
            ("autoPositionReset"@, JsonVal::Bool(m.auto_position_reset)),
            ("ledgerAccountType"@, JsonVal::Str(model_ledger_account_type_str(m.ledger_account_type))),
            ("settlementAccountType"@, JsonVal::Str(settlement_account_type_str(m.settlement_account_type))),
            ("name"@, JsonVal::Str(m.name@)),
            ("requireLiquidityCheck"@, JsonVal::Bool(m.require_liquidity_check)),
            ("settlementDelay"@, JsonVal::Str(settlement_delay_str(m.settlement_delay))),
            ("settlementGranularity"@, JsonVal::Str(settlement_granularity_str(m.settlement_granularity))),
            ("settlementInterchange"@, JsonVal::Str(settlement_interchange_str(m.settlement_interchange))),
            ("currency"@, JsonVal::Str(m.currency@)),
        ],
    )
}

impl SettlementModel {
    pub fn to_json(&self) -> (r: Json)
        ensures
            r@ == settlement_model_model(*self),
    {
        let mut ms: Vec<(String, Json)> = Vec::new();
        ms.push(("autoPositionReset".to_owned(), Json::Bool(self.auto_position_reset)));
        ms.push(
            (
                "ledgerAccountType".to_owned(),
                Json::Str(self.ledger_account_type.wire_name().to_owned()),
            ),
        );
        ms.push(
            (
                "settlementAccountType".to_owned(),
                Json::Str(self.settlement_account_type.wire_name().to_owned()),
            ),
        );
        ms.push(("name".to_owned(), Json::Str(self.name.name().to_owned())));
        ms.push(("requireLiquidityCheck".to_owned(), Json::Bool(self.require_liquidity_check)));
        ms.push(
            ("settlementDelay".to_owned(), Json::Str(self.settlement_delay.wire_name().to_owned())),
        );
        ms.push(
            (
                "settlementGranularity".to_owned(),
                Json::Str(self.settlement_granularity.wire_name().to_owned()),
            ),
        );
        ms.push(
            (
                "settlementInterchange".to_owned(),
                Json::Str(self.settlement_interchange.wire_name().to_owned()),
            ),
        );
        ms.push(("currency".to_owned(), Json::Str(self.currency.code().to_owned())));
        let r = Json::Obj(ms);
        proof {
            lemma_jobj_view(r->Obj_0, 0);
            assert(r@->Obj_0 =~= settlement_model_model(*self)->Obj_0);
        }
        r
    }
}

/// Creates a settlement model.
#[derive(Debug, Clone)]
pub struct PostSettlementModel {
    pub settlement_model: SettlementModel,
}

impl PostSettlementModel {
    /// POST `/settlementModels` with the model object.
    pub fn to_wire(&self) -> (r: WireRequest)
        ensures
            r.method == Method::POST,
            r.service == MojaloopService::CentralLedger,
            r.path@ == "/settlementModels"@,
            r.body matches Some(b) && b@ == json_text(settlement_model_model(self.settlement_model)),
            r.response_tag == ResponseTag::NoBody,
    {
        WireRequest {
            method: Method::POST,
            service: MojaloopService::CentralLedger,
            path: "/settlementModels".to_owned(),
            body: Some(json_write(&self.settlement_model.to_json())),
            response_tag: ResponseTag::NoBody,
        }
    }
}

} // verus!
