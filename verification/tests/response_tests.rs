use remote_prover::config::Network;
use remote_prover::gate::AdmissionGate;
use remote_prover::json::{to_json_string, JsonValue};
use remote_prover::proving::{
    build_fee_info, build_summary, fee_json, locator_for, transaction_type_label,
    varuna_version_for, CallMetric, VarunaSelection,
};
use remote_prover::response::{
    build_broadcast_meta, build_success_response, error_body, health_body, http_status_for,
    should_broadcast, skipped_broadcast_meta, AuthorizationPayload, BroadcastOutcome, FailureKind,
    ProveRequest,
};

fn sample_metric() -> CallMetric {
    CallMetric {
        program_id: "contract_execution.aleo".to_owned(),
        function: "add_public".to_owned(),
        instructions: 3,
        request_constraints: 100,
        function_constraints: 200,
        response_constraints: 50,
    }
}

fn sample_summary() -> JsonValue {
    build_summary(
        locator_for("contract_execution.aleo", "add_public"),
        vec!["oid0".to_owned()],
        vec!["12u32".to_owned()],
        1,
        vec![sample_metric()],
        false,
    )
}

fn parse(v: &JsonValue) -> serde_json::Value {
    serde_json::from_str(&to_json_string(v)).expect("library output must be valid JSON")
}

#[test]
fn healthcheck_root_returns_ok() {
    let body = health_body();
    assert_eq!(to_json_string(&body), "{\"status\":\"ok\"}");
    let json = parse(&body);
    assert_eq!(json["status"], "ok");
}

#[test]
fn error_bodies_carry_status_and_message() {
    let body = error_body("Error parsing authorization: bad field".to_owned());
    let json = parse(&body);
    assert_eq!(json["status"], "error");
    assert_eq!(json["message"], "Error parsing authorization: bad field");
}

#[test]
fn feeless_success_response_shape() {
    let response = build_success_response(
        Network::Testnet,
        "at1txid".to_owned(),
        transaction_type_label(false, false),
        "exec1".to_owned(),
        JsonValue::Object(vec![("type".to_owned(), JsonValue::Text("execute".to_owned()))]),
        "{\"type\":\"execute\"}".to_owned(),
        sample_summary(),
        None,
        skipped_broadcast_meta(),
    );
    let json = parse(&response);
    assert_eq!(json["status"], "success");
    assert_eq!(json["network"], "testnet");
    assert_eq!(json["transaction_id"], "at1txid");
    assert_eq!(json["transaction_type"], "execute");
    assert_eq!(json["execution_id"], "exec1");
    assert!(json["transaction"].is_object());
    assert_eq!(json["transaction_payload"], "{\"type\":\"execute\"}");
    let summary = json["summary"].as_object().expect("missing summary section");
    assert_eq!(summary["transitions"].as_u64(), Some(1));
    assert_eq!(summary["locator"], "contract_execution.aleo/add_public");
    assert_eq!(summary["is_fee"], false);
    assert_eq!(summary["call_metrics"][0]["function"], "add_public");
    assert_eq!(summary["call_metrics"][0]["instructions"].as_u64(), Some(3));
    let broadcast = json["broadcast"].as_object().expect("missing broadcast metadata");
    assert_eq!(broadcast["requested"], false);
    assert!(
        json.get("fee").is_none(),
        "fee section should be absent for fee-less requests"
    );
}

#[test]
fn fee_section_present_exactly_when_fee_proved() {
    let info = build_fee_info(
        true,
        false,
        "au1transition".to_owned(),
        1_000_500,
        1_000_000,
        500,
        Some("aleo1payer".to_owned()),
        "sr1root".to_owned(),
        2,
    )
    .expect("a private fee shapes");
    let response = build_success_response(
        Network::Testnet,
        "at1txid".to_owned(),
        "execute",
        "exec1".to_owned(),
        JsonValue::Null,
        "null".to_owned(),
        sample_summary(),
        Some(info),
        skipped_broadcast_meta(),
    );
    let json = parse(&response);
    let fee = json["fee"].as_object().expect("fee section must be present");
    assert_eq!(fee["kind"], "private");
    assert_eq!(fee["transition_id"], "au1transition");
    assert_eq!(fee["amount_microcredits"], "1000500");
    assert_eq!(fee["base_microcredits"], "1000000");
    assert_eq!(fee["priority_microcredits"], "500");
    assert_eq!(fee["payer"], "aleo1payer");
    assert_eq!(fee["global_state_root"], "sr1root");
    assert_eq!(fee["num_finalize_operations"].as_u64(), Some(2));
}

#[test]
fn fee_without_payer_omits_the_key() {
    let info = build_fee_info(
        false,
        true,
        "au1t".to_owned(),
        10,
        10,
        0,
        None,
        "sr1root".to_owned(),
        0,
    )
    .expect("a public fee shapes");
    let json = parse(&fee_json(&info));
    assert_eq!(json["kind"], "public");
    assert!(json.get("payer").is_none());
}

#[test]
fn fee_that_is_neither_private_nor_public_is_an_error() {
    let err = build_fee_info(
        false,
        false,
        "au1t".to_owned(),
        0,
        0,
        0,
        None,
        "sr1root".to_owned(),
        0,
    )
    .expect_err("an unknown fee kind must be refused");
    assert_eq!(err, "Fee transition is neither private nor public");
}

#[test]
fn broadcast_defaults_to_requested() {
    let base = ProveRequest {
        authorization: AuthorizationPayload::Text("{}".to_owned()),
        fee_authorization: None,
        broadcast: None,
        network: None,
    };
    assert!(should_broadcast(&base));
    let explicit_yes = ProveRequest { broadcast: Some(true), ..base };
    assert!(should_broadcast(&explicit_yes));
    let declined = ProveRequest { broadcast: Some(false), ..explicit_yes };
    assert!(!should_broadcast(&declined));
}

#[test]
fn skipped_broadcast_reports_not_requested() {
    assert_eq!(to_json_string(&skipped_broadcast_meta()), "{\"requested\":false}");
}

#[test]
fn failing_broadcast_is_reported_not_escalated() {
    let long_body = "x".repeat(300);
    let meta = build_broadcast_meta(
        "https://api.explorer.provable.com/v2/testnet/transaction/broadcast".to_owned(),
        BroadcastOutcome::Answered { status: 502, body: long_body },
        "{\"payload\":true}",
    );
    let json = parse(&meta);
    assert_eq!(json["requested"], true);
    assert_eq!(json["status"].as_u64(), Some(502));
    assert_eq!(json["success"], false);
    let reported = json["response"].as_str().expect("response body reported");
    assert_eq!(reported.chars().count(), 257);
    assert!(reported.ends_with('\u{2026}'));
    assert_eq!(json["payload_preview"], "{\"payload\":true}");
}

#[test]
fn successful_broadcast_is_reported() {
    let meta = build_broadcast_meta(
        "https://example.invalid/broadcast".to_owned(),
        BroadcastOutcome::Answered { status: 200, body: "at1txid".to_owned() },
        "{}",
    );
    let json = parse(&meta);
    assert_eq!(json["success"], true);
    assert_eq!(json["response"], "at1txid");
}

#[test]
fn transport_failure_is_reported() {
    let meta = build_broadcast_meta(
        "https://example.invalid/broadcast".to_owned(),
        BroadcastOutcome::TransportFailed { error: "connection refused".to_owned() },
        "{}",
    );
    let json = parse(&meta);
    assert_eq!(json["requested"], true);
    assert_eq!(json["success"], false);
    assert_eq!(json["error"], "connection refused");
    assert!(json.get("status").is_none());
}

#[test]
fn authorization_payloads_canonicalize() {
    let encoded = AuthorizationPayload::Text("{\"k\": 1}".to_owned());
    assert_eq!(encoded.to_compact_string(), "{\"k\": 1}");
    let document = AuthorizationPayload::Json(JsonValue::Object(vec![(
        "k".to_owned(),
        JsonValue::NumberLit("1".to_owned()),
    )]));
    assert_eq!(document.to_compact_string(), "{\"k\":1}");
}

#[test]
fn transaction_type_ranks_deploy_fee_execute() {
    assert_eq!(transaction_type_label(true, true), "deploy");
    assert_eq!(transaction_type_label(true, false), "deploy");
    assert_eq!(transaction_type_label(false, true), "fee");
    assert_eq!(transaction_type_label(false, false), "execute");
}

#[test]
fn varuna_selection_follows_consensus_epoch() {
    assert_eq!(varuna_version_for(1), VarunaSelection::V1);
    assert_eq!(varuna_version_for(2), VarunaSelection::V1);
    assert_eq!(varuna_version_for(3), VarunaSelection::V1);
    assert_eq!(varuna_version_for(4), VarunaSelection::V2);
    assert_eq!(varuna_version_for(9), VarunaSelection::V2);
}

#[test]
fn locator_joins_program_and_function() {
    assert_eq!(
        locator_for("contract_execution.aleo", "add_public"),
        "contract_execution.aleo/add_public"
    );
}

#[test]
fn admission_gate_bounds_in_flight_proofs() {
    let mut gate = AdmissionGate::new(2);
    assert!(gate.try_acquire());
    assert!(gate.try_acquire());
    assert!(!gate.try_acquire(), "a third prove must wait");
    gate.release();
    assert!(gate.try_acquire());
    assert!(!gate.try_acquire());
}

#[test]
fn admission_gate_floors_capacity_at_one() {
    let mut gate = AdmissionGate::new(0);
    assert_eq!(gate.total_capacity(), 1);
    assert_eq!(gate.current_in_flight(), 0);
    assert!(gate.try_acquire());
    assert_eq!(gate.current_in_flight(), 1);
    assert!(!gate.try_acquire());
}

#[test]
fn failures_map_to_their_statuses() {
    assert_eq!(http_status_for(FailureKind::MalformedBody), 400);
    assert_eq!(http_status_for(FailureKind::InvalidAuthorization), 400);
    assert_eq!(http_status_for(FailureKind::ResolutionFailed), 500);
    assert_eq!(http_status_for(FailureKind::ProvingFailed), 500);
    assert_eq!(http_status_for(FailureKind::SerializationFailed), 500);
    assert_eq!(http_status_for(FailureKind::WorkerPanicked), 500);
}
