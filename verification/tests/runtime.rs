use ink_wrapper::calls::AccountId;
use ink_wrapper::calls::ExecCall;
use ink_wrapper::calls::ExecCallNeedsValue;
use ink_wrapper::calls::InkLangError;
use ink_wrapper::calls::InstantiateCall;
use ink_wrapper::calls::InstantiateCallNeedsValue;
use ink_wrapper::calls::LangError;
use ink_wrapper::calls::ReadCall;
use ink_wrapper::calls::ReadCallArgs;
use ink_wrapper::calls::TxStatus;
use ink_wrapper::calls::UploadCall;
use ink_wrapper::encode::call_data;
use ink_wrapper::encode::encode_bool;
use ink_wrapper::encode::encode_compact_u32;
use ink_wrapper::encode::encode_u128;
use ink_wrapper::encode::encode_u32;
use ink_wrapper::encode::encode_u64;
use ink_wrapper::events::ContractEvent;
use ink_wrapper::events::ContractEvents;
use parity_scale_codec::Encode;

fn account(tag: u8) -> AccountId {
    AccountId::new([tag; 32])
}

#[test]
fn primitive_encodings_match_the_codec() {
    assert_eq!(encode_u32(7), vec![7, 0, 0, 0]);
    assert_eq!(encode_u32(0x01020304), vec![4, 3, 2, 1]);
    assert_eq!(encode_u32(42), 42u32.encode());
    assert_eq!(encode_u64(42), 42u64.encode());
    assert_eq!(encode_u64(42).len(), 8);
    assert_eq!(encode_u128(42), 42u128.encode());
    assert_eq!(encode_bool(true), vec![1]);
    assert_eq!(encode_bool(false), vec![0]);
}

#[test]
fn compact_encoding_switches_modes() {
    assert_eq!(encode_compact_u32(42), vec![42 << 2]);
    assert_eq!(encode_compact_u32(63), vec![252]);
    // Two-byte mode: (64 << 2) | 1 = 257, little endian.
    assert_eq!(encode_compact_u32(64), vec![1, 1]);
    // Four-byte mode: (16384 << 2) | 2 = 65538, little endian.
    assert_eq!(encode_compact_u32(16384), vec![2, 0, 1, 0]);
    // Marker mode: 0b11 then the plain little-endian bytes.
    assert_eq!(encode_compact_u32(0x4000_0000), vec![3, 0, 0, 0, 64]);
    for x in [0u32, 1, 63, 64, 16383, 16384, u32::MAX] {
        assert_eq!(encode_compact_u32(x), parity_scale_codec::Compact(x).encode());
    }
}

#[test]
fn call_header_is_selector_plus_encodings_in_order() {
    let selector = vec![246u8, 7, 184, 246];

    // Zero arguments: the header is exactly the selector bytes.
    assert_eq!(call_data(&selector, &vec![]), vec![246, 7, 184, 246]);

    // The example scenario: set_u32(7).
    let header = call_data(&selector, &vec![encode_u32(7)]);
    assert_eq!(header, vec![246, 7, 184, 246, 7, 0, 0, 0]);

    // Order matters and is reproducible.
    let ab = call_data(&selector, &vec![encode_u32(1), encode_bool(true)]);
    let ba = call_data(&selector, &vec![encode_bool(true), encode_u32(1)]);
    assert_eq!(ab, vec![246, 7, 184, 246, 1, 0, 0, 0, 1]);
    assert_eq!(ba, vec![246, 7, 184, 246, 1, 1, 0, 0, 0]);
    assert_ne!(ab, ba);
    assert_eq!(ab, call_data(&selector, &vec![encode_u32(1), encode_bool(true)]));
}

#[test]
fn instantiate_call_builders_fill_fields() {
    let call: InstantiateCall<()> = InstantiateCall::new([9; 32], vec![1, 2]);
    assert_eq!(call.code_hash, [9; 32]);
    assert_eq!(call.data, vec![1, 2]);
    assert_eq!(call.salt, Vec::<u8>::new());
    assert_eq!(call.value, 0);
    assert_eq!(call.tx_status, TxStatus::Finalized);

    let call = call.with_salt(vec![5, 6]).with_tx_status(TxStatus::Submitted);
    assert_eq!(call.salt, vec![5, 6]);
    assert_eq!(call.tx_status, TxStatus::Submitted);
    assert_eq!(call.data, vec![1, 2]);

    let payable: InstantiateCallNeedsValue<()> =
        InstantiateCallNeedsValue::new([9; 32], vec![1, 2]);
    let funded = payable.with_value(123);
    assert_eq!(funded.value, 123);
    assert_eq!(funded.code_hash, [9; 32]);
    assert_eq!(funded.data, vec![1, 2]);
    assert_eq!(funded.tx_status, TxStatus::Finalized);
}

#[test]
fn exec_and_read_call_builders_fill_fields() {
    let call: ExecCall<()> = ExecCall::new(account(1), vec![4, 5]);
    assert_eq!(call.account_id.bytes, [1; 32]);
    assert_eq!(call.value, 0);
    let call = call.with_tx_status(TxStatus::InBlock);
    assert_eq!(call.tx_status, TxStatus::InBlock);

    let payable: ExecCallNeedsValue<()> = ExecCallNeedsValue::new(account(2), vec![4]);
    let funded = payable.with_value(7);
    assert_eq!(funded.value, 7);
    assert_eq!(funded.account_id.bytes, [2; 32]);

    let read: ReadCall<u32> = ReadCall::new(account(3), vec![9]);
    assert_eq!(read.value, 0);
    let read = read.with_value(11);
    assert_eq!(read.value, 11);
    let args = ReadCallArgs::from_read(read);
    assert_eq!(args.account_id.bytes, [3; 32]);
    assert_eq!(args.data, vec![9]);
    assert_eq!(args.value, 11);

    let exec: ExecCall<u32> = ExecCall::new(account(4), vec![8]);
    let args = ReadCallArgs::from_exec(exec);
    assert_eq!(args.account_id.bytes, [4; 32]);
    assert_eq!(args.value, 0);
}

#[test]
fn upload_call_builders_fill_fields() {
    let call = UploadCall::new(vec![0, 1, 2], [7; 32]);
    assert_eq!(call.wasm, vec![0, 1, 2]);
    assert_eq!(call.expected_code_hash, [7; 32]);
    assert_eq!(call.tx_status, TxStatus::Finalized);
    let call = call.with_tx_status(TxStatus::Submitted);
    assert_eq!(call.tx_status, TxStatus::Submitted);
}

#[test]
fn account_ids_compare_by_bytes() {
    assert_eq!(account(1), account(1));
    assert_ne!(account(1), account(2));
    let mut other = [1u8; 32];
    other[31] = 2;
    assert_ne!(account(1), AccountId::new(other));
    assert_eq!(account(5).to_bytes(), [5; 32]);
}

fn event(tag: u8, data: Vec<u8>) -> ContractEvent {
    ContractEvent {
        account_id: account(tag),
        data,
    }
}

#[test]
fn event_filtering_keeps_origin_and_order() {
    let events = ContractEvents {
        events: vec![
            event(1, vec![0, 10]),
            event(2, vec![0, 20]),
            event(1, vec![0, 30]),
            event(3, vec![0, 40]),
            event(1, vec![0, 50]),
        ],
    };
    let ours = events.for_contract(&account(1));
    assert_eq!(ours.len(), 3);
    assert_eq!(ours[0].data, vec![0, 10]);
    assert_eq!(ours[1].data, vec![0, 30]);
    assert_eq!(ours[2].data, vec![0, 50]);
    assert!(ours.iter().all(|e| e.account_id == account(1)));
    assert_eq!(events.for_contract(&account(9)).len(), 0);
}

#[test]
fn event_decoding_reports_failures_per_event() {
    // A tiny event scheme: [0, x] decodes to x, anything else fails.
    let events = ContractEvents {
        events: vec![
            event(1, vec![0, 10]),
            event(2, vec![0, 99]),
            event(1, vec![7, 7]),
            event(1, vec![0, 50]),
        ],
    };
    let decoder = |d: &Vec<u8>| -> Result<u8, u8> {
        if d.len() == 2 && d[0] == 0 {
            Ok(d[1])
        } else {
            Err(0)
        }
    };
    let decoded = events.decode_for_contract(&account(1), decoder);
    assert_eq!(decoded, vec![Ok(10), Err(0), Ok(50)]);
}

#[test]
fn lang_error_has_a_readable_message() {
    let e = InkLangError::new(LangError::CouldNotReadInput);
    assert_eq!(e.message(), "InkLangError(CouldNotReadInput)");
    assert_eq!(e.cause, LangError::CouldNotReadInput);
}
