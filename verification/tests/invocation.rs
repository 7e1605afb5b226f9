//! Tests of the dispatcher core, the signer, event decoding and the
//! result reporter.

use cargo_contract::descriptor::{EventSpec, InterfaceDescriptor, MethodSpec};
use cargo_contract::dispatch::{
    build_extrinsic_payload, build_query_request, report, InvocationOutcome, InvocationReport,
    InvocationRequest,
};
use cargo_contract::error::Error;
use cargo_contract::signer::{resolve_account, Signer};
use cargo_contract::transcoder::{EventRecord, HumanEvent, MessageTranscoder};
use cargo_contract::types::{TypeSpec, Value};

fn account(byte: u8) -> Vec<u8> {
    vec![byte; 32]
}

fn event_descriptor() -> MessageTranscoder {
    let ev = EventSpec {
        name: "Transferred".to_string(),
        signature: vec![1, 2, 3, 4],
        fields: vec![TypeSpec::U32],
    };
    MessageTranscoder::new(InterfaceDescriptor::new(Vec::new(), vec![ev]).unwrap())
}

#[test]
fn simulated_value_at_the_64_bit_limit_is_accepted() {
    let r = InvocationRequest::simulated(account(1), account(2), u64::MAX as u128, 5000, vec![1]);
    assert!(r.is_ok());
}

#[test]
fn simulated_value_beyond_64_bits_is_rejected() {
    let r = InvocationRequest::simulated(
        account(1),
        account(2),
        (u64::MAX as u128) + 1,
        5000,
        vec![1],
    );
    assert_eq!(r.unwrap_err(), Error::ValueRangeError);
}

#[test]
fn query_request_carries_the_fields_through() {
    let req = InvocationRequest::simulated(account(1), account(2), 77, 5000, vec![9, 8]).unwrap();
    let rpc = build_query_request(&req);
    assert_eq!(rpc.origin, account(1));
    assert_eq!(rpc.dest, account(2));
    assert_eq!(rpc.value, 77);
    assert_eq!(rpc.gas_limit, 5000);
    assert_eq!(rpc.input_data, vec![9, 8]);
}

#[test]
fn extrinsic_payload_layout_is_exact() {
    let payload = build_extrinsic_payload(&account(3), 1, 2, &vec![0xAA]);
    let mut expected = vec![3u8; 32];
    expected.extend_from_slice(&[1, 0, 0, 0, 0, 0, 0, 0, 0, 0, 0, 0, 0, 0, 0, 0]);
    expected.extend_from_slice(&[2, 0, 0, 0, 0, 0, 0, 0]);
    expected.extend_from_slice(&[0x04, 0xAA]);
    assert_eq!(payload, expected);
}

#[test]
fn signer_derives_a_32_byte_account_and_signs_64_bytes() {
    let signer = Signer::derive("//Alice", None).unwrap();
    assert_eq!(signer.account_id().len(), 32);
    let sig = signer.sign(&vec![1, 2, 3]);
    assert_eq!(sig.len(), 64);
}

#[test]
fn signer_rejects_a_malformed_secret_uri() {
    let r = Signer::derive("this is not a valid phrase at all", None);
    assert!(matches!(r, Err(Error::SecretParseError)));
}

#[test]
fn signed_request_carries_a_signature() {
    let signer = Signer::derive("//Alice", None).unwrap();
    let req = InvocationRequest::signed(&signer, account(2), 1 << 80, 5000, vec![1, 2]);
    match req {
        InvocationRequest::Signed { origin, value, signature, .. } => {
            assert_eq!(origin.len(), 32);
            assert_eq!(value, 1 << 80);
            assert_eq!(signature.len(), 64);
        },
        InvocationRequest::Simulated { .. } => panic!("wrong mode"),
    }
}

#[test]
fn resolve_account_accepts_hex_and_ss58() {
    let hex_form = format!("0x{}", "11".repeat(32));
    assert_eq!(resolve_account(&hex_form).unwrap(), vec![0x11; 32]);
    let alice = "5GrwvaEF5zXb26Fz9rcQpDWS57CtERHpNehXCPcNoHGKutQY";
    assert_eq!(resolve_account(alice).unwrap().len(), 32);
}

#[test]
fn resolve_account_accepts_upper_case_and_bare_hex() {
    let upper = format!("0x{}", "AB".repeat(32));
    assert_eq!(resolve_account(&upper).unwrap(), vec![0xAB; 32]);
    let bare = "cd".repeat(32);
    assert_eq!(resolve_account(&bare).unwrap(), vec![0xCD; 32]);
}

#[test]
fn equal_secret_uris_derive_equal_accounts() {
    let a = Signer::derive("//Alice", None).unwrap();
    let b = Signer::derive("//Alice", None).unwrap();
    assert_eq!(a.account_id(), b.account_id());
    let pw = "hunter".to_string();
    let c = Signer::derive("//Alice", Some(&pw)).unwrap();
    let d = Signer::derive("//Alice", Some(&pw)).unwrap();
    assert_eq!(c.account_id(), d.account_id());
}

#[test]
fn resolve_account_rejects_garbage() {
    assert_eq!(
        resolve_account("not an address").unwrap_err(),
        Error::IdentifierParseError
    );
}

#[test]
fn one_bad_event_never_blocks_its_siblings() {
    let t = event_descriptor();
    let good = EventRecord {
        module: "Contracts".to_string(),
        name: "ContractEmitted".to_string(),
        data: vec![1, 2, 3, 4, 42, 0, 0, 0],
    };
    let unknown = EventRecord {
        module: "Contracts".to_string(),
        name: "ContractEmitted".to_string(),
        data: vec![9, 9, 9, 9, 1],
    };
    let out = t.decode_events(&vec![good, unknown]);
    assert_eq!(out.len(), 2);
    assert_eq!(
        out[0],
        HumanEvent::Contract {
            name: "Transferred".to_string(),
            fields: vec![Value::U32(42)],
        }
    );
    assert_eq!(out[1], HumanEvent::Raw { data: vec![9, 9, 9, 9, 1] });
}

#[test]
fn ledger_events_render_generically() {
    let t = event_descriptor();
    let rec = EventRecord {
        module: "Balances".to_string(),
        name: "Transfer".to_string(),
        data: vec![7, 7],
    };
    let out = t.decode_events(&vec![rec]);
    assert_eq!(
        out[0],
        HumanEvent::Ledger {
            module: "Balances".to_string(),
            name: "Transfer".to_string(),
            data: vec![7, 7],
        }
    );
}

#[test]
fn contract_event_with_trailing_bytes_renders_raw() {
    let t = event_descriptor();
    let rec = EventRecord {
        module: "Contracts".to_string(),
        name: "ContractEmitted".to_string(),
        data: vec![1, 2, 3, 4, 42, 0, 0, 0, 99],
    };
    let out = t.decode_events(&vec![rec]);
    assert_eq!(out[0], HumanEvent::Raw { data: vec![1, 2, 3, 4, 42, 0, 0, 0, 99] });
}

#[test]
fn failed_simulation_reports_error_detail_verbatim() {
    let t = MessageTranscoder::new(
        InterfaceDescriptor::new(
            vec![MethodSpec {
                name: "get".to_string(),
                selector: vec![1, 2, 3, 4],
                params: vec![],
                return_type: Some(TypeSpec::U32),
            }],
            Vec::new(),
        )
        .unwrap(),
    );
    let outcome = InvocationOutcome::SimulatedResult {
        success: false,
        raw_return_data: vec![0xFF],
        gas_consumed: 11,
        error_detail: Some("ContractTrapped".to_string()),
    };
    let rep = report(&outcome, "get", &t).unwrap();
    assert_eq!(
        rep,
        InvocationReport::SimulatedFailure {
            gas_consumed: 11,
            error_detail: Some("ContractTrapped".to_string()),
        }
    );
}

#[test]
fn successful_simulation_decodes_the_return_value() {
    let t = MessageTranscoder::new(
        InterfaceDescriptor::new(
            vec![MethodSpec {
                name: "get".to_string(),
                selector: vec![1, 2, 3, 4],
                params: vec![],
                return_type: Some(TypeSpec::U32),
            }],
            Vec::new(),
        )
        .unwrap(),
    );
    let outcome = InvocationOutcome::SimulatedResult {
        success: true,
        raw_return_data: vec![42, 0, 0, 0],
        gas_consumed: 7,
        error_detail: None,
    };
    let rep = report(&outcome, "get", &t).unwrap();
    assert_eq!(
        rep,
        InvocationReport::SimulatedSuccess { gas_consumed: 7, value: Value::U32(42) }
    );
}

#[test]
fn submission_reports_events_despite_a_dispatch_error() {
    let t = event_descriptor();
    let outcome = InvocationOutcome::SubmittedResult {
        block_reference: "0xabcd".to_string(),
        emitted_events: vec![EventRecord {
            module: "Contracts".to_string(),
            name: "ContractEmitted".to_string(),
            data: vec![1, 2, 3, 4, 5, 0, 0, 0],
        }],
        dispatch_error: Some("OutOfGas".to_string()),
    };
    let rep = report(&outcome, "ignored", &t).unwrap();
    match rep {
        InvocationReport::Submitted { block_reference, events, dispatch_error } => {
            assert_eq!(block_reference, "0xabcd");
            assert_eq!(dispatch_error, Some("OutOfGas".to_string()));
            assert_eq!(
                events,
                vec![HumanEvent::Contract {
                    name: "Transferred".to_string(),
                    fields: vec![Value::U32(5)],
                }]
            );
        },
        _ => panic!("wrong report"),
    }
}
