use mojaloop_api::central_ledger::participants::{
    AnyAccountType, CallbackUrl, CurrencyIsActive, FspiopCallbackType, GetCallbackUrls,
    GetDfspAccounts, GetParticipantLimits, GetParticipants, HubAccount, HubAccountType,
    InitialPositionAndLimits, IsActive, Limit, LimitType, NewParticipant, NewParticipantLimit,
    ParticipantFundsInOut, ParticipantFundsInOutAction, ParticipantLimit, PartyIdType,
    PostCallbackUrl, PostHubAccount, PostInitialPositionAndLimits, PostParticipant,
    PostParticipantSettlementFunds, PutParticipantAccount, PutParticipantLimit,
    SettlementAccountId, get_callback_path,
};
use mojaloop_api::central_ledger::settlement_models::{
    PostSettlementModel, SettlementAccountType, SettlementDelay, SettlementGranularity,
    SettlementInterchange, SettlementModel, SettlementModelName,
};
use mojaloop_api::common::{CallerConstructionError, Method, MojaloopService, ResponseTag, req_to_raw_http};
use mojaloop_api::settlement::settlement::{
    GetSettlements, NewSettlement, PostSettlement, SettlementState,
};
use mojaloop_api::settlement::settlement_windows::{
    CloseSettlementWindow, GetSettlementWindow, GetSettlementWindows,
    SettlementWindowCloseState, SettlementWindowClosurePayload, SettlementWindowId,
    SettlementWindowState,
};
use mojaloop_api::types::{Amount, CorrelationId, Currency, DateTime, FspId, Money};

fn usd() -> Currency {
    Currency::from_code("USD").expect("USD is a valid code")
}

#[test]
fn enum_wire_names_match_the_remote_schema() {
    assert_eq!(IsActive::Yes.wire_name(), "1");
    assert_eq!(IsActive::No.wire_name(), "0");
    assert_eq!(PartyIdType::MSISDN.wire_name(), "MSISDN");
    assert_eq!(HubAccountType::HubMultilateralSettlement.wire_name(), "HUB_MULTILATERAL_SETTLEMENT");
    assert_eq!(
        AnyAccountType::from_wire("HUB_RECONCILIATION"),
        Some(AnyAccountType::HubReconciliation),
    );
    assert_eq!(AnyAccountType::from_wire("UNKNOWN"), None);
    assert_eq!(
        SettlementWindowCloseState::Closed.as_window_state(),
        SettlementWindowState::Closed,
    );
    assert_eq!(SettlementState::from_wire("PS_TRANSFERS_RECORDED").map(|s| s.wire_name()), Some("PS_TRANSFERS_RECORDED"));
}

#[test]
fn currency_codes_are_validated() {
    assert!(Currency::from_code("USD").is_some());
    assert!(Currency::from_code("usd").is_none());
    assert!(Currency::from_code("USDX").is_none());
    assert!(Currency::from_code("U1D").is_none());
}

#[test]
fn amounts_are_validated() {
    assert!(Amount::from_decimal_str("100").is_some());
    assert!(Amount::from_decimal_str("-12.50").is_some());
    assert!(Amount::from_decimal_str("1.").is_none());
    assert!(Amount::from_decimal_str(".5").is_none());
    assert!(Amount::from_decimal_str("1e3").is_none());
    assert!(Amount::from_decimal_str("").is_none());
}

#[test]
fn settlement_model_names_are_bounded() {
    assert!(SettlementModelName::from("DEFERREDNET").is_ok());
    assert!(SettlementModelName::from("AAAAAAAAAABBBBBBBBBBCCCCCCCCCCD").is_err());
}

#[test]
fn settlement_model_names_are_bounded_in_bytes() {
    let sixteen_two_byte_chars = "\u{e9}".repeat(16);
    assert_eq!(sixteen_two_byte_chars.len(), 32);
    assert!(SettlementModelName::from(&sixteen_two_byte_chars).is_err());
    let fifteen = "\u{e9}".repeat(15);
    assert!(SettlementModelName::from(&fifteen).is_ok());
}

#[test]
fn get_participants_binding() {
    let w = GetParticipants {}.to_wire();
    assert_eq!(w.method, Method::GET);
    assert_eq!(w.service, MojaloopService::CentralLedger);
    assert_eq!(w.path, "/participants");
    assert!(w.body.is_none());
    assert_eq!(w.response_tag, ResponseTag::Participants);
}

#[test]
fn post_participant_binding() {
    let w = PostParticipant {
        participant: NewParticipant { name: FspId("fsp1".to_string()), currency: usd() },
    }.to_wire();
    assert_eq!(w.method, Method::POST);
    assert_eq!(w.path, "/participants");
    assert_eq!(w.body.as_deref(), Some("{\"name\":\"fsp1\",\"currency\":\"USD\"}"));
    assert_eq!(w.response_tag, ResponseTag::Participant);
}

#[test]
fn participant_names_are_percent_encoded_in_paths() {
    let w = GetDfspAccounts { name: FspId("fsp 1".to_string()) }.to_wire();
    assert_eq!(w.path, "/participants/fsp%201/accounts");
}

#[test]
fn post_hub_account_binding() {
    let w = PostHubAccount {
        account: HubAccount { account_type: HubAccountType::HubReconciliation, currency: usd() },
        name: FspId("Hub".to_string()),
    }.to_wire();
    assert_eq!(w.path, "/participants/Hub/accounts");
    assert_eq!(
        w.body.as_deref(),
        Some("{\"type\":\"HUB_RECONCILIATION\",\"currency\":\"USD\"}"),
    );
}

#[test]
fn post_initial_position_and_limits_binding() {
    let w = PostInitialPositionAndLimits {
        initial_position_and_limits: InitialPositionAndLimits {
            currency: usd(),
            limit: Limit { limit_type: LimitType::NetDebitCap, value: 10000 },
            initial_position: Amount::from_decimal_str("0").unwrap(),
        },
        name: FspId("fsp1".to_string()),
    }.to_wire();
    assert_eq!(w.path, "/participants/fsp1/initialPositionAndLimits");
    assert_eq!(
        w.body.as_deref(),
        Some(
            "{\"currency\":\"USD\",\"limit\":{\"type\":\"NET_DEBIT_CAP\",\"value\":10000},\"initialPosition\":0}",
        ),
    );
}

#[test]
fn get_callback_urls_binding() {
    let w = GetCallbackUrls { name: FspId("fsp1".to_string()) }.to_wire();
    assert_eq!(w.path, "/participants/fsp1/endpoints");
    assert_eq!(w.response_tag, ResponseTag::CallbackUrls);
}

#[test]
fn get_participant_limits_binding() {
    let w = GetParticipantLimits { name: FspId("fsp1".to_string()) }.to_wire();
    assert_eq!(w.path, "/participants/fsp1/limits");
    assert_eq!(w.response_tag, ResponseTag::ParticipantLimits);
}

#[test]
fn put_participant_limit_binding() {
    let w = PutParticipantLimit {
        name: FspId("fsp1".to_string()),
        limit: NewParticipantLimit {
            currency: usd(),
            limit: ParticipantLimit {
                limit_type: LimitType::NetDebitCap,
                value: 10000,
                alarm_percentage: 10,
            },
        },
    }.to_wire();
    assert_eq!(w.method, Method::PUT);
    assert_eq!(w.path, "/participants/fsp1/limits");
    assert_eq!(
        w.body.as_deref(),
        Some(
            "{\"currency\":\"USD\",\"limit\":{\"type\":\"NET_DEBIT_CAP\",\"value\":10000,\"alarmPercentage\":10}}",
        ),
    );
}

#[test]
fn put_participant_account_binding() {
    let w = PutParticipantAccount {
        name: FspId("fsp1".to_string()),
        account_id: SettlementAccountId(9),
        set_active: false,
    }.to_wire();
    assert_eq!(w.method, Method::PUT);
    assert_eq!(w.path, "/participants/fsp1/accounts/9");
    assert_eq!(w.body.as_deref(), Some("{\"isActive\":false}"));
}

#[test]
fn post_participant_settlement_funds_binding() {
    let w = PostParticipantSettlementFunds {
        account_id: SettlementAccountId(9),
        name: FspId("fsp1".to_string()),
        funds: ParticipantFundsInOut {
            transfer_id: CorrelationId("11111111-1111-1111-1111-111111111111".to_string()),
            action: ParticipantFundsInOutAction::RecordFundsIn,
            external_reference: "ref".to_string(),
            reason: "why".to_string(),
            amount: Money { currency: usd(), amount: Amount::from_decimal_str("5.00").unwrap() },
        },
    }.to_wire();
    assert_eq!(w.path, "/participants/fsp1/accounts/9");
    assert_eq!(
        w.body.as_deref(),
        Some(
            "{\"transferId\":\"11111111-1111-1111-1111-111111111111\",\"action\":\"recordFundsIn\",\"externalReference\":\"ref\",\"reason\":\"why\",\"amount\":{\"currency\":\"USD\",\"amount\":\"5.00\"}}",
        ),
    );
}

#[test]
fn post_callback_url_appends_the_template() {
    let w = PostCallbackUrl {
        name: FspId("fsp1".to_string()),
        callback_type: FspiopCallbackType::FspiopCallbackUrlTransferPost,
        hostname: "http://h:3000".to_string(),
    }.to_wire();
    assert_eq!(w.path, "/participants/fsp1/endpoints");
    assert_eq!(
        w.body.as_deref(),
        Some("{\"type\":\"FSPIOP_CALLBACK_URL_TRANSFER_POST\",\"value\":\"http://h:3000/transfers\"}"),
    );
}

#[test]
fn callback_paths_match_the_platform_templates() {
    assert_eq!(
        get_callback_path(FspiopCallbackType::FspiopCallbackUrlParticipantBatchPut),
        "/participants/{{requestId}}",
    );
    assert_eq!(get_callback_path(FspiopCallbackType::FspiopCallbackUrlQuotes), "");
    assert_eq!(
        get_callback_path(FspiopCallbackType::FspiopCallbackUrlTransferPut),
        "/transfers/{{transferId}}",
    );
}

#[test]
fn post_settlement_model_binding() {
    let w = PostSettlementModel {
        settlement_model: SettlementModel {
            auto_position_reset: true,
            ledger_account_type:
                mojaloop_api::central_ledger::settlement_models::LedgerAccountType::Position,
            settlement_account_type: SettlementAccountType::Settlement,
            name: SettlementModelName::from("DEFERREDNET").unwrap(),
            require_liquidity_check: true,
            settlement_delay: SettlementDelay::Deferred,
            settlement_granularity: SettlementGranularity::Net,
            settlement_interchange: SettlementInterchange::Multilateral,
            currency: usd(),
        },
    }.to_wire();
    assert_eq!(w.path, "/settlementModels");
    assert_eq!(
        w.body.as_deref(),
        Some(
            "{\"autoPositionReset\":true,\"ledgerAccountType\":\"POSITION\",\"settlementAccountType\":\"SETTLEMENT\",\"name\":\"DEFERREDNET\",\"requireLiquidityCheck\":true,\"settlementDelay\":\"DEFERRED\",\"settlementGranularity\":\"NET\",\"settlementInterchange\":\"MULTILATERAL\",\"currency\":\"USD\"}",
        ),
    );
}

#[test]
fn post_settlement_binding() {
    let w = PostSettlement {
        new_settlement: NewSettlement {
            settlement_model: "DEFERREDNET".to_string(),
            reason: "eod".to_string(),
            settlement_windows: vec![SettlementWindowId(1), SettlementWindowId(2)],
        },
    }.to_wire();
    assert_eq!(w.method, Method::POST);
    assert_eq!(w.service, MojaloopService::CentralSettlement);
    assert_eq!(w.path, "/v2/settlements");
    assert_eq!(
        w.body.as_deref(),
        Some("{\"settlementModel\":\"DEFERREDNET\",\"reason\":\"eod\",\"settlementWindows\":[1,2]}"),
    );
}

#[test]
fn close_settlement_window_binding() {
    let w = CloseSettlementWindow {
        id: SettlementWindowId(7),
        payload: SettlementWindowClosurePayload {
            state: SettlementWindowCloseState::Closed,
            reason: "eod".to_string(),
        },
    }.to_wire();
    assert_eq!(w.method, Method::POST);
    assert_eq!(w.path, "/v2/settlementWindows/7");
    assert_eq!(w.body.as_deref(), Some("{\"state\":\"CLOSED\",\"reason\":\"eod\"}"));
    assert_eq!(w.response_tag, ResponseTag::NoBody);
}

#[test]
fn get_settlement_window_binding() {
    let w = GetSettlementWindow { id: SettlementWindowId(7) }.to_wire();
    assert_eq!(w.path, "/v2/settlementWindows/7");
    assert_eq!(w.response_tag, ResponseTag::SettlementWindow);
}

#[test]
fn empty_settlement_window_filter_fails_fast() {
    let r = GetSettlementWindows {
        currency: None,
        participant_id: None,
        state: None,
        from_date_time: None,
        to_date_time: None,
    }.to_wire();
    assert_eq!(r.err(), Some(CallerConstructionError::EmptyQueryParameterSet));
}

#[test]
fn settlement_window_filter_renders_a_query() {
    let r = GetSettlementWindows {
        currency: Some(usd()),
        participant_id: None,
        state: Some(SettlementWindowState::Open),
        from_date_time: None,
        to_date_time: None,
    }.to_wire();
    let w = r.expect("one filter is enough");
    assert_eq!(w.path, "/v2/settlementWindows?currency=USD&state=OPEN");
}

#[test]
fn empty_settlements_filter_fails_fast() {
    let r = GetSettlements {
        currency: None,
        participant_id: None,
        settlement_window_id: None,
        state: None,
        from_date_time: None,
        to_date_time: None,
        from_settlement_window_date_time: None,
        to_settlement_window_date_time: None,
    }.to_wire();
    assert_eq!(r.err(), Some(CallerConstructionError::EmptyQueryParameterSet));
}

#[test]
fn settlements_filter_renders_a_sorted_query() {
    let r = GetSettlements {
        currency: Some(usd()),
        participant_id: Some(FspId("fsp1".to_string())),
        settlement_window_id: Some(SettlementWindowId(3)),
        state: Some(SettlementState::Settled),
        from_date_time: None,
        to_date_time: None,
        from_settlement_window_date_time: None,
        to_settlement_window_date_time: None,
    }.to_wire();
    let w = r.expect("filters are present");
    assert_eq!(
        w.path,
        "/v2/settlements?currency=USD&participantId=fsp1&settlementWindowId=3&state=SETTLED",
    );
}

#[test]
fn raw_http_get_request() {
    let w = GetParticipants {}.to_wire();
    let raw = req_to_raw_http(&w);
    assert_eq!(
        String::from_utf8(raw).unwrap(),
        "GET /participants HTTP/1.1\r\ncontent-type: application/json\r\naccept: application/json\r\ncontent-length:0\r\n\r\n",
    );
}

#[test]
fn raw_http_post_request_counts_body_bytes() {
    let w = PostParticipant {
        participant: NewParticipant { name: FspId("fsp1".to_string()), currency: usd() },
    }.to_wire();
    let raw = req_to_raw_http(&w);
    let text = String::from_utf8(raw).unwrap();
    let body = "{\"name\":\"fsp1\",\"currency\":\"USD\"}";
    assert_eq!(
        text,
        format!(
            "POST /participants HTTP/1.1\r\ncontent-type: application/json\r\naccept: application/json\r\ncontent-length:{}\r\n\r\n{}",
            body.len(),
            body,
        ),
    );
}

#[test]
fn put_is_rendered_for_limit_updates() {
    let w = PutParticipantLimit {
        name: FspId("fsp1".to_string()),
        limit: NewParticipantLimit {
            currency: usd(),
            limit: ParticipantLimit {
                limit_type: LimitType::NetDebitCap,
                value: 1,
                alarm_percentage: 1,
            },
        },
    }.to_wire();
    let raw = req_to_raw_http(&w);
    assert!(String::from_utf8(raw).unwrap().starts_with("PUT /participants/fsp1/limits HTTP/1.1\r\n"));
}

#[test]
fn currency_is_active_body() {
    let b = mojaloop_api::json::json_write(&CurrencyIsActive { is_active: true }.to_json());
    assert_eq!(b, "{\"isActive\":true}");
}

#[test]
fn callback_url_round_trips_through_json() {
    let cb = CallbackUrl {
        callback_type: FspiopCallbackType::FspiopCallbackUrlPartiesGet,
        value: "http://h/parties/{{partyIdType}}/{{partyIdentifier}}".to_string(),
    };
    let text = mojaloop_api::json::json_write(&cb.to_json());
    let parsed = mojaloop_api::json::json_parse(&text.into_bytes()).unwrap();
    let back = CallbackUrl::from_json(&parsed).expect("own encoding must decode");
    assert_eq!(back.callback_type, FspiopCallbackType::FspiopCallbackUrlPartiesGet);
    assert_eq!(back.value, cb.value);
}
