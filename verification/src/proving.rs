//! The proving pipeline's decisions: which SNARK circuit version a
//! consensus epoch selects, the locator of the call being proved, the fee
//! section, and the execution summary.
//!
//! The VM's own work — executing an authorization, preparing a trace
//! against the ledger, producing the proofs — happens outside; everything
//! it returns is judged and shaped here.

use vstd::prelude::*;
use crate::json::is_bool_field;
use crate::json::is_num_field;
use crate::json::is_text_array;
use crate::json::is_text_field;
use crate::json::text_array;
use crate::json::JsonValue;
use crate::text::dec_text;
use crate::text::u64_to_string;
use crate::text::usize_to_string;
use crate::text::chars_of;
use crate::text::push_all;
use crate::text::string_of;

verus! {

/// The two circuit versions the prover can select.
#[derive(Clone, Copy, PartialEq, Eq, Debug, Structural)]
pub enum VarunaSelection {
    V1,
    V2,
}

/// The SNARK variant for a consensus epoch: epochs one through three prove
/// with the first circuit version, every later epoch with the second. This
/// is consensus policy, not configuration.
pub fn varuna_version_for(consensus_version: u8) -> (r: VarunaSelection)
    requires
        consensus_version >= 1,
    ensures
        r == (if 1 <= consensus_version <= 3 {
            VarunaSelection::V1
        } else {
            VarunaSelection::V2
        }),
{
    if consensus_version <= 3 {
        VarunaSelection::V1
    } else {
        VarunaSelection::V2
    }
}

/// The identity of the top-level call being proved: `{program}/{function}`.
pub open spec fn locator_text(program_id: Seq<char>, function_name: Seq<char>) -> Seq<char> {
    program_id + seq!['/'] + function_name
}

/// Renders the locator of a call.
pub fn locator_for(program_id: &str, function_name: &str) -> (r: String)
    ensures
        r@ == locator_text(program_id@, function_name@),
{
    let mut out = chars_of(program_id);
    out.push('/');
    let f = chars_of(function_name);
    push_all(&mut out, &f);
    string_of(&out)
}

/// Which kind of fee proof was produced.
#[derive(Clone, Copy, PartialEq, Eq, Debug, Structural)]
pub enum FeeKind {
    Private,
    Public,
}

impl FeeKind {
    /// The name responses report.
    pub open spec fn name_text(self) -> Seq<char> {
        match self {
            FeeKind::Private => "private"@,
            FeeKind::Public => "public"@,
        }
    }

    pub fn name(self) -> (r: &'static str)
        ensures
            r@ == self.name_text(),
    {
        match self {
            FeeKind::Private => "private",
            FeeKind::Public => "public",
        }
    }
}

/// The fee section of a successful response. Amounts are decimal strings so
/// that values of any size survive JSON round trips unchanged.
#[derive(Debug)]
pub struct FeeInfo {
    pub kind: FeeKind,
    pub transition_id: String,
    pub amount_microcredits: String,
    pub base_microcredits: String,
    pub priority_microcredits: String,
    pub payer: Option<String>,
    pub global_state_root: String,
    pub num_finalize_operations: usize,
}

/// Shapes the fee section from what the VM reports of a proved fee.
/// Fails exactly when the fee transition is neither private nor public.
pub fn build_fee_info(
    is_private: bool,
    is_public: bool,
    transition_id: String,
    amount: u64,
    base_amount: u64,
    priority_amount: u64,
    payer: Option<String>,
    global_state_root: String,
    num_finalize_operations: usize,
) -> (r: Result<FeeInfo, String>)
    ensures
        match r {
            Ok(info) => {
                &&& is_private || is_public
                &&& info.kind == (if is_private {
                    FeeKind::Private
                } else {
                    FeeKind::Public
                })
                &&& info.transition_id@ == transition_id@
                &&& info.amount_microcredits@ == dec_text(amount as nat)
                &&& info.base_microcredits@ == dec_text(base_amount as nat)
                &&& info.priority_microcredits@ == dec_text(priority_amount as nat)
                &&& info.payer == payer
                &&& info.global_state_root@ == global_state_root@
                &&& info.num_finalize_operations == num_finalize_operations
            },
            Err(e) => {
                &&& !is_private && !is_public
                &&& e@ == "Fee transition is neither private nor public"@
            },
        },
{
    let kind = if is_private {
        FeeKind::Private
    } else if is_public {
        FeeKind::Public
    } else {
        return Err("Fee transition is neither private nor public".to_owned());
    };
    Ok(FeeInfo {
        kind,
        transition_id,
        amount_microcredits: u64_to_string(amount),
        base_microcredits: u64_to_string(base_amount),
        priority_microcredits: u64_to_string(priority_amount),
        payer,
        global_state_root,
        num_finalize_operations,
    })
}

/// The fee section as responses carry it: the payer key stands exactly when
/// a payer is known.
pub open spec fn is_fee_json(v: JsonValue, info: FeeInfo) -> bool {
    &&& v matches JsonValue::Object(fs)
    &&& fs@.len() == (if info.payer is Some {
        8int
    } else {
        7int
    })
    &&& is_text_field(fs@[0], "kind"@, info.kind.name_text())
    &&& is_text_field(fs@[1], "transition_id"@, info.transition_id@)
    &&& is_text_field(fs@[2], "amount_microcredits"@, info.amount_microcredits@)
    &&& is_text_field(fs@[3], "base_microcredits"@, info.base_microcredits@)
    &&& is_text_field(fs@[4], "priority_microcredits"@, info.priority_microcredits@)
    &&& match info.payer {
        Some(p) => is_text_field(fs@[5], "payer"@, p@) && is_text_field(
            fs@[6],
            "global_state_root"@,
            info.global_state_root@,
        ) && is_num_field(fs@[7], "num_finalize_operations"@, info.num_finalize_operations as nat),
        None => is_text_field(fs@[5], "global_state_root"@, info.global_state_root@)
            && is_num_field(fs@[6], "num_finalize_operations"@, info.num_finalize_operations as nat),
    }
}

/// Renders the fee section.
pub fn fee_json(info: &FeeInfo) -> (r: JsonValue)
    ensures
        is_fee_json(r, *info),
{
    let mut fs: Vec<(String, JsonValue)> = Vec::new();
    fs.push(("kind".to_owned(), JsonValue::Text(info.kind.name().to_owned())));
    fs.push(("transition_id".to_owned(), JsonValue::Text(info.transition_id.clone())));
    fs.push(("amount_microcredits".to_owned(), JsonValue::Text(info.amount_microcredits.clone())));
    fs.push(("base_microcredits".to_owned(), JsonValue::Text(info.base_microcredits.clone())));
    fs.push((
        "priority_microcredits".to_owned(),
        JsonValue::Text(info.priority_microcredits.clone()),
    ));
    match &info.payer {
        Some(p) => {
            fs.push(("payer".to_owned(), JsonValue::Text(p.clone())));
        },
        None => {},
    }
    fs.push(("global_state_root".to_owned(), JsonValue::Text(info.global_state_root.clone())));
    fs.push((
        "num_finalize_operations".to_owned(),
        JsonValue::NumberLit(usize_to_string(info.num_finalize_operations)),
    ));
    JsonValue::Object(fs)
}

/// What the VM reports of one call inside an execution trace.
pub struct CallMetric {
    pub program_id: String,
    pub function: String,
    pub instructions: u64,
    pub request_constraints: u64,
    pub function_constraints: u64,
    pub response_constraints: u64,
}

/// One call's metrics as the summary carries them.
pub open spec fn is_call_metric_json(v: JsonValue, m: CallMetric) -> bool {
    &&& v matches JsonValue::Object(fs)
    &&& fs@.len() == 6
    &&& is_text_field(fs@[0], "program_id"@, m.program_id@)
    &&& is_text_field(fs@[1], "function"@, m.function@)
    &&& is_num_field(fs@[2], "instructions"@, m.instructions as nat)
    &&& is_num_field(fs@[3], "request_constraints"@, m.request_constraints as nat)
    &&& is_num_field(fs@[4], "function_constraints"@, m.function_constraints as nat)
    &&& is_num_field(fs@[5], "response_constraints"@, m.response_constraints as nat)
}

/// Renders one call's metrics.
fn call_metric_json(m: &CallMetric) -> (r: JsonValue)
    ensures
        is_call_metric_json(r, *m),
{
    let mut fs: Vec<(String, JsonValue)> = Vec::new();
    fs.push(("program_id".to_owned(), JsonValue::Text(m.program_id.clone())));
    fs.push(("function".to_owned(), JsonValue::Text(m.function.clone())));
    fs.push(("instructions".to_owned(), JsonValue::NumberLit(u64_to_string(m.instructions))));
    fs.push((
        "request_constraints".to_owned(),
        JsonValue::NumberLit(u64_to_string(m.request_constraints)),
    ));
    fs.push((
        "function_constraints".to_owned(),
        JsonValue::NumberLit(u64_to_string(m.function_constraints)),
    ));
    fs.push((
        "response_constraints".to_owned(),
        JsonValue::NumberLit(u64_to_string(m.response_constraints)),
    ));
    JsonValue::Object(fs)
}

/// The execution summary of a successful response.
pub open spec fn is_summary_json(
    v: JsonValue,
    locator: Seq<char>,
    output_ids: Seq<String>,
    outputs: Seq<String>,
    transitions: nat,
    call_metrics: Seq<CallMetric>,
    is_fee: bool,
) -> bool {
    &&& v matches JsonValue::Object(fs)
    &&& fs@.len() == 6
    &&& is_text_field(fs@[0], "locator"@, locator)
    &&& fs@[1].0@ == "output_ids"@ && is_text_array(fs@[1].1, output_ids)
    &&& fs@[2].0@ == "outputs"@ && is_text_array(fs@[2].1, outputs)
    &&& is_num_field(fs@[3], "transitions"@, transitions)
    &&& fs@[4].0@ == "call_metrics"@ && (fs@[4].1 matches JsonValue::Array(ms) && ms@.len()
        == call_metrics.len() && (forall|i: int|
        0 <= i < call_metrics.len() ==> is_call_metric_json(#[trigger] ms@[i], call_metrics[i])))
    &&& is_bool_field(fs@[5], "is_fee"@, is_fee)
}

/// Shapes the execution summary: the locator, the rendered outputs and
/// their ids, the number of transitions, per-call metrics, and whether the
/// trace is a fee trace.
pub fn build_summary(
    locator: String,
    output_ids: Vec<String>,
    outputs: Vec<String>,
    transitions: usize,
    call_metrics: Vec<CallMetric>,
    is_fee: bool,
) -> (r: JsonValue)
    ensures
        is_summary_json(
            r,
            locator@,
            output_ids@,
            outputs@,
            transitions as nat,
            call_metrics@,
            is_fee,
        ),
{
    let mut ms: Vec<JsonValue> = Vec::new();
    let mut i: usize = 0;
    while i < call_metrics.len()
        invariant
            i <= call_metrics@.len(),
            ms@.len() == i,
            forall|j: int|
                0 <= j < i ==> is_call_metric_json(#[trigger] ms@[j], call_metrics@[j]),
        decreases call_metrics@.len() - i,
    {
        ms.push(call_metric_json(&call_metrics[i]));
        i = i + 1;
    }
    let mut fs: Vec<(String, JsonValue)> = Vec::new();
    fs.push(("locator".to_owned(), JsonValue::Text(locator)));
    fs.push(("output_ids".to_owned(), text_array(&output_ids)));
    fs.push(("outputs".to_owned(), text_array(&outputs)));
    fs.push(("transitions".to_owned(), JsonValue::NumberLit(usize_to_string(transitions))));
    fs.push(("call_metrics".to_owned(), JsonValue::Array(ms)));
    fs.push(("is_fee".to_owned(), JsonValue::Bool(is_fee)));
    JsonValue::Object(fs)
}

/// The reported transaction type: a deployment outranks a fee, and plain
/// executions are the rest.
pub fn transaction_type_label(is_deploy: bool, is_fee: bool) -> (r: &'static str)
    ensures
        r@ == (if is_deploy {
            "deploy"@
        } else if is_fee {
            "fee"@
        } else {
            "execute"@
        }),
{
    if is_deploy {
        "deploy"
    } else if is_fee {
        "fee"
    } else {
        "execute"
    }
}

} // verus!
