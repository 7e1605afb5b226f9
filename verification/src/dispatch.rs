//! The dispatcher's pure core: mode-polymorphic invocation requests, the
//! simulated-call wire request, the signed-submission payload, and the
//! result reporter. The transport itself stays outside the library behind
//! a narrow request/response boundary.

use vstd::prelude::*;

use crate::codec::{compact_bytes, encode_compact, encode_le, le_bytes, lemma_pow256_values};
use crate::encoding::append_bytes;
use crate::error::{Error, ErrorModel};
use crate::signer::Signer;
use crate::transcoder::{
    decode_event_spec, decode_return_spec, EventRecord, HumanEvent, HumanEventModel,
    MessageTranscoder, RecordModel,
};
use crate::types::{Value, ValueModel};

verus! {

/// Spec-level model of [`InvocationRequest`].
pub enum RequestModel {
    Simulated { origin: Seq<u8>, dest: Seq<u8>, value: u128, gas_limit: u64, call_data: Seq<u8> },
    Signed {
        origin: Seq<u8>,
        dest: Seq<u8>,
        value: u128,
        gas_limit: u64,
        call_data: Seq<u8>,
        signature: Seq<u8>,
    },
}

/// One invocation, constructed once in the caller's chosen mode; the
/// dispatcher never falls back from one mode to the other. A simulated
/// request is bound by the narrower 64-bit wire width for the transferred
/// value; a signed request carries the full 128-bit value and a signature
/// over the submission payload.
#[derive(Debug, PartialEq, Eq)]
pub enum InvocationRequest {
    Simulated { origin: Vec<u8>, dest: Vec<u8>, value: u128, gas_limit: u64, call_data: Vec<u8> },
    Signed {
        origin: Vec<u8>,
        dest: Vec<u8>,
        value: u128,
        gas_limit: u64,
        call_data: Vec<u8>,
        signature: Vec<u8>,
    },
}

impl DeepView for InvocationRequest {
    type V = RequestModel;

    open spec fn deep_view(&self) -> RequestModel {
        match self {
            InvocationRequest::Simulated { origin, dest, value, gas_limit, call_data } => {
                RequestModel::Simulated {
                    origin: origin@,
                    dest: dest@,
                    value: *value,
                    gas_limit: *gas_limit,
                    call_data: call_data@,
                }
            },
            InvocationRequest::Signed {
                origin,
                dest,
                value,
                gas_limit,
                call_data,
                signature,
            } => {
                RequestModel::Signed {
                    origin: origin@,
                    dest: dest@,
                    value: *value,
                    gas_limit: *gas_limit,
                    call_data: call_data@,
                    signature: signature@,
                }
            },
        }
    }
}

/// What every well-formed request guarantees: 32-byte account identifiers,
/// a simulated value inside the 64-bit wire width, and a 64-byte
/// signature on the signed path.
pub open spec fn request_wf(r: RequestModel) -> bool {
    match r {
        RequestModel::Simulated { origin, dest, value, .. } => origin.len() == 32 && dest.len()
            == 32 && value <= u64::MAX,
        RequestModel::Signed { origin, dest, signature, .. } => origin.len() == 32 && dest.len()
            == 32 && signature.len() == 64,
    }
}

/// The body of a signed submission: destination, the 128-bit value and the
/// 64-bit gas limit little-endian, then the length-prefixed call data.
pub open spec fn extrinsic_payload(
    dest: Seq<u8>,
    value: u128,
    gas_limit: u64,
    call_data: Seq<u8>,
) -> Seq<u8> {
    dest + le_bytes(value as nat, 16) + le_bytes(gas_limit as nat, 8) + compact_bytes(
        call_data.len(),
    ) + call_data
}

/// Builds the submission payload bytes that the signer signs.
pub fn build_extrinsic_payload(
    dest: &Vec<u8>,
    value: u128,
    gas_limit: u64,
    call_data: &Vec<u8>,
) -> (r: Vec<u8>)
    requires
        call_data@.len() <= u32::MAX,
    ensures
        r@ == extrinsic_payload(dest@, value, gas_limit, call_data@),
{
    proof {
        lemma_pow256_values();
    }
    let mut out: Vec<u8> = Vec::new();
    append_bytes(dest, &mut out);
    encode_le(value, 16, &mut out);
    encode_le(gas_limit as u128, 8, &mut out);
    encode_compact(call_data.len() as u32, &mut out);
    append_bytes(call_data, &mut out);
    proof {
        assert(out@ =~= extrinsic_payload(dest@, value, gas_limit, call_data@));
    }
    out
}

impl InvocationRequest {
    /// Constructs a simulated request. The transferred value must fit the
    /// 64-bit width of the simulation wire protocol: a larger value is an
    /// [`Error::ValueRangeError`] at construction, never a truncation.
    pub fn simulated(
        origin: Vec<u8>,
        dest: Vec<u8>,
        value: u128,
        gas_limit: u64,
        call_data: Vec<u8>,
    ) -> (r: Result<InvocationRequest, Error>)
        requires
            origin@.len() == 32,
            dest@.len() == 32,
        ensures
            value > u64::MAX <==> r == Err::<InvocationRequest, Error>(Error::ValueRangeError),
            value <= u64::MAX ==> (r matches Ok(q) && q.deep_view() == (RequestModel::Simulated {
                origin: origin@,
                dest: dest@,
                value,
                gas_limit,
                call_data: call_data@,
            }) && request_wf(q.deep_view())),
    {
        if value > u64::MAX as u128 {
            return Err(Error::ValueRangeError);
        }
        Ok(InvocationRequest::Simulated { origin, dest, value, gas_limit, call_data })
    }

    /// Constructs and signs a submission request: the signature covers the
    /// extrinsic payload over the destination, value, gas limit and call
    /// data, and the caller's account becomes the origin.
    pub fn signed(
        signer: &Signer,
        dest: Vec<u8>,
        value: u128,
        gas_limit: u64,
        call_data: Vec<u8>,
    ) -> (r: InvocationRequest)
        requires
            signer.wf(),
            dest@.len() == 32,
            call_data@.len() <= u32::MAX,
        ensures
            r.deep_view() matches RequestModel::Signed {
                origin,
                dest: d,
                value: v,
                gas_limit: g,
                call_data: c,
                signature,
            } && origin == signer@ && d == dest@ && v == value && g == gas_limit && c == call_data@
                && signature.len() == 64,
            request_wf(r.deep_view()),
    {
        let payload = build_extrinsic_payload(&dest, value, gas_limit, &call_data);
        let signature = signer.sign(&payload);
        let acct = signer.account_id();
        let origin = crate::encoding::copy_range(acct, 0, acct.len());
        proof {
            assert(acct@.subrange(0, acct@.len() as int) =~= signer@);
        }
        InvocationRequest::Signed { origin, dest, value, gas_limit, call_data, signature }
    }
}

/// The wire fields of one simulated-call request, ready for the JSON
/// transport: plain accounts, a 64-bit value and gas limit, and the raw
/// input bytes.
#[derive(Debug, PartialEq, Eq)]
pub struct RpcCallRequest {
    pub origin: Vec<u8>,
    pub dest: Vec<u8>,
    pub value: u64,
    pub gas_limit: u64,
    pub input_data: Vec<u8>,
}

/// Builds the wire request for a simulated invocation; the value narrows
/// to 64 bits exactly because construction already bounded it.
pub fn build_query_request(req: &InvocationRequest) -> (r: RpcCallRequest)
    requires
        req.deep_view() is Simulated,
        request_wf(req.deep_view()),
    ensures
        req.deep_view() matches RequestModel::Simulated {
            origin,
            dest,
            value,
            gas_limit,
            call_data,
        } && r.origin@ == origin && r.dest@ == dest && r.value == value && r.gas_limit == gas_limit
            && r.input_data@ == call_data,
{
    match req {
        InvocationRequest::Simulated { origin, dest, value, gas_limit, call_data } => {
            RpcCallRequest {
                origin: crate::encoding::copy_range(origin, 0, origin.len()),
                dest: crate::encoding::copy_range(dest, 0, dest.len()),
                value: *value as u64,
                gas_limit: *gas_limit,
                input_data: crate::encoding::copy_range(call_data, 0, call_data.len()),
            }
        },
        InvocationRequest::Signed { .. } => unreached(),
    }
}

/// Spec-level model of [`InvocationOutcome`].
pub enum OutcomeModel {
    SimulatedResult {
        success: bool,
        raw_return_data: Seq<u8>,
        gas_consumed: u64,
        error_detail: Option<Seq<char>>,
    },
    SubmittedResult {
        block_reference: Seq<char>,
        emitted_events: Seq<RecordModel>,
        dispatch_error: Option<Seq<char>>,
    },
}

/// What came back over the wire, already reduced to plain values: the
/// simulated execution result, or the submission's block reference, raw
/// event records and optional dispatch error.
#[derive(Debug, PartialEq, Eq)]
pub enum InvocationOutcome {
    SimulatedResult {
        success: bool,
        raw_return_data: Vec<u8>,
        gas_consumed: u64,
        error_detail: Option<String>,
    },
    SubmittedResult {
        block_reference: String,
        emitted_events: Vec<EventRecord>,
        dispatch_error: Option<String>,
    },
}

impl DeepView for InvocationOutcome {
    type V = OutcomeModel;

    open spec fn deep_view(&self) -> OutcomeModel {
        match self {
            InvocationOutcome::SimulatedResult {
                success,
                raw_return_data,
                gas_consumed,
                error_detail,
            } => OutcomeModel::SimulatedResult {
                success: *success,
                raw_return_data: raw_return_data@,
                gas_consumed: *gas_consumed,
                error_detail: match error_detail {
                    Some(s) => Some(s@),
                    None => None,
                },
            },
            InvocationOutcome::SubmittedResult {
                block_reference,
                emitted_events,
                dispatch_error,
            } => OutcomeModel::SubmittedResult {
                block_reference: block_reference@,
                emitted_events: emitted_events.deep_view(),
                dispatch_error: match dispatch_error {
                    Some(s) => Some(s@),
                    None => None,
                },
            },
        }
    }
}

/// Spec-level model of [`InvocationReport`].
pub enum ReportModel {
    SimulatedFailure { gas_consumed: u64, error_detail: Option<Seq<char>> },
    SimulatedSuccess { gas_consumed: u64, value: ValueModel },
    Submitted {
        block_reference: Seq<char>,
        events: Seq<HumanEventModel>,
        dispatch_error: Option<Seq<char>>,
    },
}

/// The rendered outcome of one invocation: a failed simulation surfaces
/// its error detail verbatim, a successful one its decoded return value,
/// and a submission its decoded event trace.
#[derive(Debug, PartialEq, Eq)]
pub enum InvocationReport {
    SimulatedFailure { gas_consumed: u64, error_detail: Option<String> },
    SimulatedSuccess { gas_consumed: u64, value: Value },
    Submitted {
        block_reference: String,
        events: Vec<HumanEvent>,
        dispatch_error: Option<String>,
    },
}

impl DeepView for InvocationReport {
    type V = ReportModel;

    open spec fn deep_view(&self) -> ReportModel {
        match self {
            InvocationReport::SimulatedFailure { gas_consumed, error_detail } => {
                ReportModel::SimulatedFailure {
                    gas_consumed: *gas_consumed,
                    error_detail: match error_detail {
                        Some(s) => Some(s@),
                        None => None,
                    },
                }
            },
            InvocationReport::SimulatedSuccess { gas_consumed, value } => {
                ReportModel::SimulatedSuccess {
                    gas_consumed: *gas_consumed,
                    value: value.deep_view(),
                }
            },
            InvocationReport::Submitted { block_reference, events, dispatch_error } => {
                ReportModel::Submitted {
                    block_reference: block_reference@,
                    events: events.deep_view(),
                    dispatch_error: match dispatch_error {
                        Some(s) => Some(s@),
                        None => None,
                    },
                }
            },
        }
    }
}

/// What the reporter yields. A failed simulation is a valid outcome: its
/// error detail passes through verbatim and its return data is not
/// decoded. A successful simulation delegates to the return decoder. A
/// submission always has every event record rendered, whether or not a
/// dispatch error is present.
pub open spec fn report_spec(
    d: crate::descriptor::DescriptorModel,
    name: Seq<char>,
    outcome: OutcomeModel,
) -> Result<ReportModel, ErrorModel> {
    match outcome {
        OutcomeModel::SimulatedResult { success, raw_return_data, gas_consumed, error_detail } => {
            if !success {
                Ok(ReportModel::SimulatedFailure { gas_consumed, error_detail })
            } else {
                match decode_return_spec(d, name, raw_return_data) {
                    Ok(v) => Ok(ReportModel::SimulatedSuccess { gas_consumed, value: v }),
                    Err(e) => Err(e),
                }
            }
        },
        OutcomeModel::SubmittedResult { block_reference, emitted_events, dispatch_error } => {
            Ok(
                ReportModel::Submitted {
                    block_reference,
                    events: Seq::new(
                        emitted_events.len(),
                        |i: int|
                            if 0 <= i < emitted_events.len() {
                                decode_event_spec(d, emitted_events[i])
                            } else {
                                HumanEventModel::Raw { data: Seq::empty() }
                            },
                    ),
                    dispatch_error,
                },
            )
        },
    }
}

/// Renders one outcome against the invoked method and its descriptor, as
/// [`report_spec`] states.
pub fn report(
    outcome: &InvocationOutcome,
    method_name: &str,
    transcoder: &MessageTranscoder,
) -> (r: Result<InvocationReport, Error>)
    ensures
        match report_spec(transcoder.deep_view(), method_name@, outcome.deep_view()) {
            Ok(rm) => r matches Ok(rep) && rep.deep_view() == rm,
            Err(em) => r matches Err(e) && e.deep_view() == em,
        },
{
    match outcome {
        InvocationOutcome::SimulatedResult {
            success,
            raw_return_data,
            gas_consumed,
            error_detail,
        } => {
            if !*success {
                let detail = match error_detail {
                    Some(s) => Some(s.clone()),
                    None => None,
                };
                Ok(
                    InvocationReport::SimulatedFailure {
                        gas_consumed: *gas_consumed,
                        error_detail: detail,
                    },
                )
            } else {
                match transcoder.decode_return(method_name, raw_return_data) {
                    Ok(v) => Ok(
                        InvocationReport::SimulatedSuccess { gas_consumed: *gas_consumed, value: v },
                    ),
                    Err(e) => Err(e),
                }
            }
        },
        InvocationOutcome::SubmittedResult { block_reference, emitted_events, dispatch_error } => {
            let events = transcoder.decode_events(emitted_events);
            let detail = match dispatch_error {
                Some(s) => Some(s.clone()),
                None => None,
            };
            proof {
                let em = report_spec(
                    transcoder.deep_view(),
                    method_name@,
                    outcome.deep_view(),
                )->Ok_0->Submitted_events;
                assert(events.deep_view() =~= em);
            }
            Ok(
                InvocationReport::Submitted {
                    block_reference: block_reference.clone(),
                    events,
                    dispatch_error: detail,
                },
            )
        },
    }
}

} // verus!
