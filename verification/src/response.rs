//! The `/prove` request and every body the service sends back.
//!
//! A request carries one or two authorization payloads and a broadcast
//! flag. A successful response reports the transaction and its summary,
//! carries a fee section exactly when the request supplied a fee
//! authorization, and always reports what became of the broadcast.

use vstd::prelude::*;
use crate::config::Network;
use crate::json::fields_have_key;
use crate::json::is_bool_field;
use crate::json::is_text_field;
use crate::json::json_text;
use crate::json::JsonValue;
use crate::proving::fee_json;
use crate::proving::is_fee_json;
use crate::proving::FeeInfo;
use crate::text::truncate_for_log;
use crate::text::truncated_text;
use crate::json::to_json_string;

verus! {

/// An authorization as a client may send it: an already-encoded JSON
/// string, or a JSON document to be canonicalized.
pub enum AuthorizationPayload {
    Text(String),
    Json(JsonValue),
}

impl AuthorizationPayload {
    /// The compact string handed to the VM's authorization parser: an
    /// encoded payload passes through; a document is rendered compactly.
    pub fn to_compact_string(&self) -> (r: String)
        ensures
            r@ == match self {
                AuthorizationPayload::Text(s) => s@,
                AuthorizationPayload::Json(v) => json_text(*v),
            },
    {
        match self {
            AuthorizationPayload::Text(s) => s.clone(),
            AuthorizationPayload::Json(v) => to_json_string(v),
        }
    }
}

/// The body of a `POST /prove`.
pub struct ProveRequest {
    /// The primary execution authorization.
    pub authorization: AuthorizationPayload,
    /// The authorization producing the fee transition, when the main
    /// execution does not pay its own fee.
    pub fee_authorization: Option<AuthorizationPayload>,
    /// Whether to broadcast the proved transaction; omitted means yes.
    pub broadcast: Option<bool>,
    /// A network override; the service currently serves one network.
    pub network: Option<Network>,
}

/// An omitted flag asks for broadcast; only an explicit
/// `false` declines it.
pub open spec fn broadcast_requested(flag: Option<bool>) -> bool {
    match flag {
        Some(b) => b,
        None => true,
    }
}

/// Whether this request asks for its transaction to be broadcast. When this
/// is false, no broadcast request may leave the service, and the response's
/// broadcast section reports `requested: false`.
pub fn should_broadcast(req: &ProveRequest) -> (r: bool)
    ensures
        r == broadcast_requested(req.broadcast),
{
    match req.broadcast {
        Some(b) => b,
        None => true,
    }
}

/// What the driver observed when it posted a transaction.
pub enum BroadcastOutcome {
    /// The explorer answered, with a status and a body.
    Answered { status: u16, body: String },
    /// The request itself failed.
    TransportFailed { error: String },
}

/// The number of characters a reported body or payload preview may keep.
pub open spec fn preview_limit() -> nat {
    256
}

/// The broadcast section after an attempted broadcast: the endpoint, the
/// explorer's verdict — success exactly on a 2xx status — and the reported
/// texts, truncated.
pub open spec fn is_broadcast_json(
    v: JsonValue,
    endpoint: Seq<char>,
    outcome: BroadcastOutcome,
    payload: Seq<char>,
) -> bool {
    &&& v matches JsonValue::Object(fs)
    &&& is_bool_field(fs@[0], "requested"@, true)
    &&& is_text_field(fs@[1], "endpoint"@, endpoint)
    &&& match outcome {
        BroadcastOutcome::Answered { status, body } => {
            &&& fs@.len() == 6
            &&& is_num_field_u16(fs@[2], "status"@, status)
            &&& is_bool_field(fs@[3], "success"@, 200 <= status < 300)
            &&& is_text_field(fs@[4], "response"@, truncated_text(body@, preview_limit()))
            &&& is_text_field(
                fs@[5],
                "payload_preview"@,
                truncated_text(payload, preview_limit()),
            )
        },
        BroadcastOutcome::TransportFailed { error } => {
            &&& fs@.len() == 5
            &&& is_bool_field(fs@[2], "success"@, false)
            &&& is_text_field(fs@[3], "error"@, error@)
            &&& is_text_field(
                fs@[4],
                "payload_preview"@,
                truncated_text(payload, preview_limit()),
            )
        },
    }
}

/// A field holding a 16-bit number.
pub open spec fn is_num_field_u16(field: (String, JsonValue), key: Seq<char>, n: u16) -> bool {
    crate::json::is_num_field(field, key, n as nat)
}

/// Shapes the broadcast section after an attempted broadcast. A broadcast
/// failure never fails the request; it is reported here, beside the proof.
pub fn build_broadcast_meta(
    endpoint: String,
    outcome: BroadcastOutcome,
    transaction_payload: &str,
) -> (r: JsonValue)
    ensures
        is_broadcast_json(r, endpoint@, outcome, transaction_payload@),
{
    let preview = truncate_for_log(transaction_payload, 256);
    let mut fs: Vec<(String, JsonValue)> = Vec::new();
    fs.push(("requested".to_owned(), JsonValue::Bool(true)));
    fs.push(("endpoint".to_owned(), JsonValue::Text(endpoint)));
    match outcome {
        BroadcastOutcome::Answered { status, body } => {
            fs.push(("status".to_owned(), JsonValue::NumberLit(
                crate::text::u64_to_string(status as u64),
            )));
            fs.push(("success".to_owned(), JsonValue::Bool(
                crate::explorer::is_success_status(status),
            )));
            fs.push(("response".to_owned(), JsonValue::Text(
                truncate_for_log(body.as_str(), 256),
            )));
            fs.push(("payload_preview".to_owned(), JsonValue::Text(preview)));
        },
        BroadcastOutcome::TransportFailed { error } => {
            fs.push(("success".to_owned(), JsonValue::Bool(false)));
            fs.push(("error".to_owned(), JsonValue::Text(error)));
            fs.push(("payload_preview".to_owned(), JsonValue::Text(preview)));
        },
    }
    JsonValue::Object(fs)
}

/// The broadcast section when the request declined broadcasting.
pub fn skipped_broadcast_meta() -> (r: JsonValue)
    ensures
        r matches JsonValue::Object(fs) && fs@.len() == 1 && is_bool_field(
            fs@[0],
            "requested"@,
            false,
        ),
{
    let mut fs: Vec<(String, JsonValue)> = Vec::new();
    fs.push(("requested".to_owned(), JsonValue::Bool(false)));
    JsonValue::Object(fs)
}

/// A successful response: the proved transaction with its identifiers and
/// summary, a fee section exactly when a fee was proved, and the broadcast
/// report.
pub open spec fn is_success_json(
    v: JsonValue,
    network: Network,
    transaction_id: Seq<char>,
    transaction_type: Seq<char>,
    execution_id: Seq<char>,
    transaction: JsonValue,
    transaction_payload: Seq<char>,
    summary: JsonValue,
    fee_info: Option<FeeInfo>,
    broadcast_meta: JsonValue,
) -> bool {
    &&& v matches JsonValue::Object(fs)
    &&& fs@.len() == (if fee_info is Some {
        10int
    } else {
        9int
    })
    &&& is_text_field(fs@[0], "status"@, "success"@)
    &&& is_text_field(fs@[1], "network"@, network.name_text())
    &&& is_text_field(fs@[2], "transaction_id"@, transaction_id)
    &&& is_text_field(fs@[3], "transaction_type"@, transaction_type)
    &&& is_text_field(fs@[4], "execution_id"@, execution_id)
    &&& fs@[5].0@ == "transaction"@ && fs@[5].1 == transaction
    &&& is_text_field(fs@[6], "transaction_payload"@, transaction_payload)
    &&& fs@[7].0@ == "summary"@ && fs@[7].1 == summary
    &&& match fee_info {
        Some(info) => fs@[8].0@ == "fee"@ && is_fee_json(fs@[8].1, info) && fs@[9].0@
            == "broadcast"@ && fs@[9].1 == broadcast_meta,
        None => fs@[8].0@ == "broadcast"@ && fs@[8].1 == broadcast_meta,
    }
    // The fee key stands exactly when a fee authorization was proved.
    &&& fields_have_key(fs@, "fee"@) <==> fee_info is Some
}

/// Builds the body of a successful `/prove`. The response carries a `fee`
/// object exactly when the request supplied a fee authorization, and its
/// `broadcast` section is the given report.
pub fn build_success_response(
    network: Network,
    transaction_id: String,
    transaction_type: &str,
    execution_id: String,
    transaction: JsonValue,
    transaction_payload: String,
    summary: JsonValue,
    fee_info: Option<FeeInfo>,
    broadcast_meta: JsonValue,
) -> (r: JsonValue)
    ensures
        is_success_json(
            r,
            network,
            transaction_id@,
            transaction_type@,
            execution_id@,
            transaction,
            transaction_payload@,
            summary,
            fee_info,
            broadcast_meta,
        ),
{
    let mut fs: Vec<(String, JsonValue)> = Vec::new();
    fs.push(("status".to_owned(), JsonValue::Text("success".to_owned())));
    fs.push(("network".to_owned(), JsonValue::Text(network.name().to_owned())));
    fs.push(("transaction_id".to_owned(), JsonValue::Text(transaction_id)));
    fs.push(("transaction_type".to_owned(), JsonValue::Text(transaction_type.to_owned())));
    fs.push(("execution_id".to_owned(), JsonValue::Text(execution_id)));
    fs.push(("transaction".to_owned(), transaction));
    fs.push(("transaction_payload".to_owned(), JsonValue::Text(transaction_payload)));
    fs.push(("summary".to_owned(), summary));
    match &fee_info {
        Some(info) => {
            fs.push(("fee".to_owned(), fee_json(info)));
        },
        None => {},
    }
    fs.push(("broadcast".to_owned(), broadcast_meta));
    let r = JsonValue::Object(fs);
    proof {
        reveal_strlit("status");
        reveal_strlit("network");
        reveal_strlit("transaction_id");
        reveal_strlit("transaction_type");
        reveal_strlit("execution_id");
        reveal_strlit("transaction");
        reveal_strlit("transaction_payload");
        reveal_strlit("summary");
        reveal_strlit("fee");
        reveal_strlit("broadcast");
        // No base key reads "fee": their lengths already differ.
        assert("fee"@.len() == 3);
        assert("status"@.len() == 6);
        assert("network"@.len() == 7);
        assert("transaction_id"@.len() == 14);
        assert("transaction_type"@.len() == 16);
        assert("execution_id"@.len() == 12);
        assert("transaction"@.len() == 11);
        assert("transaction_payload"@.len() == 19);
        assert("summary"@.len() == 7);
        assert("broadcast"@.len() == 9);
        if fee_info is None {
            assert(!fields_have_key(fs@, "fee"@)) by {
                if fields_have_key(fs@, "fee"@) {
                    let i = choose|i: int| 0 <= i < fs@.len() && #[trigger] fs@[i].0@ == "fee"@;
                    assert(fs@[i].0@.len() == 3);
                    assert(false);
                }
            }
        }
    }
    r
}

/// What went wrong with a request. A broadcast failure is deliberately not
/// here: it is reported beside a successful proof, never as a failure.
pub enum FailureKind {
    /// The request body is not valid JSON.
    MalformedBody,
    /// An authorization or fee authorization did not parse.
    InvalidAuthorization,
    /// A program could not be fetched, decoded, or installed.
    ResolutionFailed,
    /// Validation or proving failed in the VM.
    ProvingFailed,
    /// The proved transaction could not be serialized.
    SerializationFailed,
    /// The proving worker panicked.
    WorkerPanicked,
}

/// The HTTP status a failure travels under: a fault in the request itself
/// is the client's, everything later is the service's.
pub fn http_status_for(kind: FailureKind) -> (r: u16)
    ensures
        r == (match kind {
            FailureKind::MalformedBody => 400u16,
            FailureKind::InvalidAuthorization => 400u16,
            FailureKind::ResolutionFailed => 500u16,
            FailureKind::ProvingFailed => 500u16,
            FailureKind::SerializationFailed => 500u16,
            FailureKind::WorkerPanicked => 500u16,
        }),
{
    match kind {
        FailureKind::MalformedBody => 400,
        FailureKind::InvalidAuthorization => 400,
        FailureKind::ResolutionFailed => 500,
        FailureKind::ProvingFailed => 500,
        FailureKind::SerializationFailed => 500,
        FailureKind::WorkerPanicked => 500,
    }
}

/// The error body: everything a failing request reports.
pub open spec fn is_error_json(v: JsonValue, message: Seq<char>) -> bool {
    &&& v matches JsonValue::Object(fs)
    &&& fs@.len() == 2
    &&& is_text_field(fs@[0], "status"@, "error"@)
    &&& is_text_field(fs@[1], "message"@, message)
}

/// Builds the error body carried by both client errors and server errors;
/// only the HTTP status distinguishes the two.
pub fn error_body(message: String) -> (r: JsonValue)
    ensures
        is_error_json(r, message@),
{
    let mut fs: Vec<(String, JsonValue)> = Vec::new();
    fs.push(("status".to_owned(), JsonValue::Text("error".to_owned())));
    fs.push(("message".to_owned(), JsonValue::Text(message)));
    JsonValue::Object(fs)
}

/// The health body: `{"status":"ok"}`.
pub fn health_body() -> (r: JsonValue)
    ensures
        r matches JsonValue::Object(fs) && fs@.len() == 1 && is_text_field(
            fs@[0],
            "status"@,
            "ok"@,
        ),
{
    let mut fs: Vec<(String, JsonValue)> = Vec::new();
    fs.push(("status".to_owned(), JsonValue::Text("ok".to_owned())));
    JsonValue::Object(fs)
}

} // verus!
