use mojaloop_api::classify::{classify, ResponseOutcome, ResponsePayload};
use mojaloop_api::common::{resp_from_raw_http, ResponseTag};

fn body(s: &str) -> Vec<u8> {
    s.as_bytes().to_vec()
}

#[test]
fn every_status_up_to_599_yields_one_outcome() {
    let mut status: u16 = 0;
    while status <= 599 {
        let r = classify(ResponseTag::NoBody, status, body("x"));
        let counted = match r {
            ResponseOutcome::Success(_) => 1,
            ResponseOutcome::DomainError(_) => 1,
            ResponseOutcome::TransportFailure(_, _) => 0,
            ResponseOutcome::MalformedPayload(_, _) => 1,
        };
        assert_eq!(counted, 1, "status {} must classify", status);
        status += 1;
    }
}

#[test]
fn error_envelope_fidelity() {
    let r = classify(
        ResponseTag::Participant,
        400,
        body("{\"errorInformation\":{\"errorCode\":\"3100\",\"errorDescription\":\"bad request\"}}"),
    );
    match r {
        ResponseOutcome::DomainError(e) => {
            assert_eq!(e.error_code, "3100");
            assert_eq!(e.error_description, "bad request");
        },
        other => panic!("expected a domain error, got {:?}", other),
    }
}

#[test]
fn malformed_body_keeps_the_bytes() {
    let r = classify(ResponseTag::Participant, 200, body("not json"));
    match r {
        ResponseOutcome::MalformedPayload(bs, diagnostic) => {
            assert_eq!(bs, b"not json".to_vec());
            assert!(!diagnostic.is_empty());
        },
        other => panic!("expected a malformed payload, got {:?}", other),
    }
}

#[test]
fn informational_and_redirect_statuses_are_a_defined_gap() {
    for status in [100u16, 101, 300, 301, 302, 399] {
        let r = classify(ResponseTag::NoBody, status, body(""));
        assert!(
            matches!(r, ResponseOutcome::MalformedPayload(_, _)),
            "status {} must fall in the gap",
            status,
        );
    }
}

#[test]
fn error_status_with_unparseable_body_is_malformed() {
    let r = classify(ResponseTag::Participant, 404, body("<html>gone</html>"));
    match r {
        ResponseOutcome::MalformedPayload(bs, _) => assert_eq!(bs, b"<html>gone</html>".to_vec()),
        other => panic!("expected a malformed payload, got {:?}", other),
    }
}

#[test]
fn error_status_with_wrong_envelope_is_malformed() {
    let r = classify(ResponseTag::Participant, 500, body("{\"error\":\"oops\"}"));
    assert!(matches!(r, ResponseOutcome::MalformedPayload(_, _)));
}

#[test]
fn created_participant_decodes() {
    let r = classify(
        ResponseTag::Participant,
        201,
        body(
            "{\"name\":\"fsp1\",\"id\":\"42\",\"created\":\"2021-01-01T00:00:00Z\",\"isActive\":1,\"accounts\":[]}",
        ),
    );
    match r {
        ResponseOutcome::Success(ResponsePayload::Participant(p)) => {
            assert_eq!(p.name.0, "fsp1");
            assert_eq!(p.id, "42");
            assert_eq!(p.created.0, "2021-01-01T00:00:00Z");
            assert_eq!(p.is_active, 1);
            assert!(p.accounts.is_empty());
        },
        other => panic!("expected a participant, got {:?}", other),
    }
}

#[test]
fn close_window_success_with_empty_body() {
    let r = classify(ResponseTag::NoBody, 200, body(""));
    assert!(matches!(r, ResponseOutcome::Success(ResponsePayload::NoBody(_))));
}

#[test]
fn no_body_tag_rejects_a_body() {
    let r = classify(ResponseTag::NoBody, 200, body("{}"));
    assert!(matches!(r, ResponseOutcome::MalformedPayload(_, _)));
}

#[test]
fn participants_list_decodes() {
    let r = classify(
        ResponseTag::Participants,
        200,
        body(
            "[{\"name\":\"fsp1\",\"id\":\"1\",\"created\":\"2021-01-01T00:00:00Z\",\"isActive\":1,\"accounts\":[{\"id\":3,\"ledgerAccountType\":\"POSITION\",\"currency\":\"USD\",\"isActive\":1}]}]",
        ),
    );
    match r {
        ResponseOutcome::Success(ResponsePayload::Participants(ps)) => {
            assert_eq!(ps.len(), 1);
            assert_eq!(ps[0].accounts.len(), 1);
            assert_eq!(ps[0].accounts[0].id.0, 3);
            assert_eq!(ps[0].accounts[0].currency.code(), "USD");
        },
        other => panic!("expected participants, got {:?}", other),
    }
}

#[test]
fn dfsp_accounts_decode() {
    let r = classify(
        ResponseTag::DfspAccounts,
        200,
        body(
            "[{\"id\":5,\"ledgerAccountType\":\"SETTLEMENT\",\"currency\":\"USD\",\"isActive\":1,\"value\":-100.25,\"reservedValue\":0,\"changedDate\":\"2021-02-03T00:00:00Z\"}]",
        ),
    );
    match r {
        ResponseOutcome::Success(ResponsePayload::DfspAccounts(xs)) => {
            assert_eq!(xs.len(), 1);
            assert_eq!(xs[0].value.digits(), "-100.25");
            assert_eq!(xs[0].reserved_value.digits(), "0");
        },
        other => panic!("expected accounts, got {:?}", other),
    }
}

#[test]
fn callback_urls_decode() {
    let r = classify(
        ResponseTag::CallbackUrls,
        200,
        body("[{\"type\":\"FSPIOP_CALLBACK_URL_QUOTES\",\"value\":\"http://h\"}]"),
    );
    match r {
        ResponseOutcome::Success(ResponsePayload::CallbackUrls(xs)) => {
            assert_eq!(xs.len(), 1);
            assert_eq!(xs[0].value, "http://h");
        },
        other => panic!("expected callback urls, got {:?}", other),
    }
}

#[test]
fn participant_limits_decode() {
    let r = classify(
        ResponseTag::ParticipantLimits,
        200,
        body(
            "[{\"currency\":\"USD\",\"limit\":{\"type\":\"NET_DEBIT_CAP\",\"value\":10000,\"alarmPercentage\":10}}]",
        ),
    );
    match r {
        ResponseOutcome::Success(ResponsePayload::ParticipantLimits(xs)) => {
            assert_eq!(xs.len(), 1);
            assert_eq!(xs[0].limit.value, 10000);
            assert_eq!(xs[0].limit.alarm_percentage, 10);
        },
        other => panic!("expected limits, got {:?}", other),
    }
}

#[test]
fn settlement_decodes() {
    let r = classify(
        ResponseTag::Settlement,
        200,
        body(
            "{\"id\":1,\"state\":\"PENDING_SETTLEMENT\",\"createdDate\":\"2021-01-01T00:00:00Z\",\"changedDate\":\"2021-01-01T00:00:00Z\",\"settlementWindows\":[{\"id\":7,\"state\":\"PENDING_SETTLEMENT\",\"createdDate\":\"2021-01-01T00:00:00Z\"}],\"participants\":[{\"id\":2,\"accounts\":[{\"id\":3,\"reason\":\"settle\",\"state\":\"PENDING_SETTLEMENT\",\"netSettlementAmount\":{\"amount\":-5.00,\"currency\":\"USD\"}}]}]}",
        ),
    );
    match r {
        ResponseOutcome::Success(ResponsePayload::Settlement(s)) => {
            assert_eq!(s.id.0, 1);
            assert_eq!(s.settlement_windows.len(), 1);
            assert_eq!(s.settlement_windows[0].id.0, 7);
            assert!(s.settlement_windows[0].reason.is_none());
            assert_eq!(s.participants.len(), 1);
            assert_eq!(s.participants[0].accounts[0].net_settlement_amount.amount.digits(), "-5.00");
        },
        other => panic!("expected a settlement, got {:?}", other),
    }
}

#[test]
fn settlements_list_decodes() {
    let r = classify(
        ResponseTag::Settlements,
        200,
        body(
            "[{\"id\":1,\"state\":\"SETTLED\",\"createdDate\":\"d\",\"changedDate\":\"d\",\"settlementWindows\":[],\"participants\":[]}]",
        ),
    );
    match r {
        ResponseOutcome::Success(ResponsePayload::Settlements(xs)) => {
            assert_eq!(xs.len(), 1);
        },
        other => panic!("expected settlements, got {:?}", other),
    }
}

#[test]
fn settlement_window_decodes() {
    let r = classify(
        ResponseTag::SettlementWindow,
        200,
        body(
            "{\"settlementWindowId\":7,\"reason\":\"eod\",\"state\":\"CLOSED\",\"createdDate\":\"d\",\"changedDate\":null,\"content\":[{\"id\":1,\"state\":\"CLOSED\",\"ledgerAccountType\":\"POSITION\",\"currencyId\":\"USD\",\"createdDate\":\"d\"}]}",
        ),
    );
    match r {
        ResponseOutcome::Success(ResponsePayload::SettlementWindow(w)) => {
            assert_eq!(w.settlement_window_id.0, 7);
            assert_eq!(w.reason.as_deref(), Some("eod"));
            assert!(w.changed_date.is_none());
            let content = w.content.expect("content present");
            assert_eq!(content.len(), 1);
            assert!(content[0].settlement_window_id.is_none());
        },
        other => panic!("expected a window, got {:?}", other),
    }
}

#[test]
fn settlement_windows_list_decodes() {
    let r = classify(
        ResponseTag::SettlementWindows,
        200,
        body("[{\"settlementWindowId\":7,\"state\":\"OPEN\",\"createdDate\":\"d\"}]"),
    );
    match r {
        ResponseOutcome::Success(ResponsePayload::SettlementWindows(xs)) => {
            assert_eq!(xs.len(), 1);
            assert_eq!(xs[0].settlement_window_id.0, 7);
        },
        other => panic!("expected windows, got {:?}", other),
    }
}

#[test]
fn wrong_payload_shape_on_success_is_malformed() {
    let r = classify(ResponseTag::Participant, 200, body("{\"name\":\"fsp1\"}"));
    assert!(matches!(r, ResponseOutcome::MalformedPayload(_, _)));
}

#[test]
fn raw_response_with_error_envelope() {
    let payload = "{\"errorInformation\":{\"errorCode\":\"3100\",\"errorDescription\":\"bad request\"}}";
    let raw = format!(
        "HTTP/1.1 400 Bad Request\r\ncontent-type: application/json\r\ncontent-length: {}\r\n\r\n{}",
        payload.len(),
        payload,
    );
    let r = resp_from_raw_http(ResponseTag::Participant, &raw.into_bytes());
    match r {
        ResponseOutcome::DomainError(e) => assert_eq!(e.error_code, "3100"),
        other => panic!("expected a domain error, got {:?}", other),
    }
}

#[test]
fn raw_response_with_success_body() {
    let payload = "{\"name\":\"fsp1\",\"id\":\"42\",\"created\":\"c\",\"isActive\":1,\"accounts\":[]}";
    let raw = format!("HTTP/1.1 200 OK\r\n\r\n{}", payload);
    let r = resp_from_raw_http(ResponseTag::Participant, &raw.into_bytes());
    match r {
        ResponseOutcome::Success(ResponsePayload::Participant(p)) => assert_eq!(p.name.0, "fsp1"),
        other => panic!("expected a participant, got {:?}", other),
    }
}

#[test]
fn raw_response_with_garbage_head_is_malformed() {
    let raw = b"garbage bytes, no http head".to_vec();
    let r = resp_from_raw_http(ResponseTag::NoBody, &raw);
    match r {
        ResponseOutcome::MalformedPayload(bs, _) => assert_eq!(bs, raw),
        other => panic!("expected a malformed payload, got {:?}", other),
    }
}
