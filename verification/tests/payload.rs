use stacks_payload::contract_call::{Arguments, TransactionContractCall};
use stacks_payload::error::ParserError;
use stacks_payload::payload::{TransactionPayload, TransactionPayloadId};
use stacks_payload::smart_contract::TransactionSmartContract;
use stacks_payload::token_transfer::{StxTokenTransfer, TokenTranferPrincipal};

const HASH: [u8; 20] = [
    0xa4, 0x6f, 0xf8, 0x88, 0x86, 0xc2, 0xef, 0x97, 0x62, 0xd9, 0x70, 0xb4, 0xd2, 0xc6, 0x36, 0x78,
    0x83, 0x5b, 0xd3, 0x9d,
];

fn memo() -> Vec<u8> {
    let mut text = b"hello world".to_vec();
    text.resize(34, 0);
    text
}

fn name(text: &[u8]) -> Vec<u8> {
    let mut bytes = vec![text.len() as u8];
    bytes.extend_from_slice(text);
    bytes
}

fn transfer(version: u8, contract: Option<&[u8]>, amount: u64) -> Vec<u8> {
    let mut bytes = vec![0, if contract.is_some() { 6 } else { 5 }, version];
    bytes.extend_from_slice(&HASH);
    if let Some(text) = contract {
        bytes.extend(name(text));
    }
    bytes.extend_from_slice(&amount.to_be_bytes());
    bytes.extend(memo());
    bytes
}

fn call(version: u8, contract: &[u8], function: &[u8], count: u32, values: &[u8]) -> Vec<u8> {
    let mut bytes = vec![2, version];
    bytes.extend_from_slice(&HASH);
    bytes.extend(name(contract));
    bytes.extend(name(function));
    bytes.extend_from_slice(&count.to_be_bytes());
    bytes.extend_from_slice(values);
    bytes
}

fn error(bytes: &[u8], expert_mode: bool) -> ParserError {
    TransactionPayload::from_bytes(bytes, expert_mode).unwrap_err()
}

#[test]
fn test_transaction_payload_tokens() {
    let bytes: Vec<u8> = vec![
        0, 5, 1, 255, 255, 255, 255, 255, 255, 255, 255, 255, 255, 255, 255, 255, 255, 255, 255,
        255, 255, 255, 255, 0, 0, 0, 0, 0, 0, 0, 123, 0, 0, 0, 0, 0, 0, 0, 0, 0, 0, 0, 0, 0, 0, 0,
        0, 0, 0, 0, 0, 0, 0, 0, 0, 0, 0, 0, 0, 0, 0, 0, 0, 0, 0,
    ];

    let parsed = TransactionPayload::from_bytes(&bytes, false).unwrap().1;
    assert_eq!(parsed.amount(), Some(123));
    assert_eq!(
        parsed.recipient_address().unwrap().as_slice(),
        b"S13ZZZZZZZZZZZZZZZZZZZZZZZZZZZZZZZXCFYZCG"
    );
}

#[test]
fn transfer_to_an_address_reads_back() {
    let mut bytes = transfer(22, None, 0x0102030405060708);
    bytes.extend_from_slice(b"tail");
    let (rest, payload) = TransactionPayload::from_bytes(&bytes, false).unwrap();
    assert_eq!(rest, b"tail");
    assert_eq!(payload.amount(), Some(0x0102030405060708));
    assert_eq!(payload.memo(), Some(&memo()[..]));
    assert_eq!(
        payload.recipient_address().unwrap().as_slice(),
        b"SP2J6ZY48GV1EZ5V2V5RB9MP66SW86PYKKNRV9EJ7"
    );
    assert!(payload.is_token_transfer_payload());
    assert!(!payload.is_smart_contract_payload());
    assert!(!payload.is_contract_call_payload());
    assert_eq!(payload.contract_name(), None);
    assert_eq!(payload.function_name(), None);
    assert_eq!(payload.num_args(true), None);
    assert!(payload.contract_address().is_none());
    assert_eq!(payload.num_items(), 3);
}

#[test]
fn transfer_to_a_contract_reads_back() {
    let bytes = transfer(26, Some(b"vault"), u64::MAX);
    let (rest, payload) = TransactionPayload::from_bytes(&bytes, true).unwrap();
    assert!(rest.is_empty());
    assert_eq!(payload.amount(), Some(u64::MAX));
    assert_eq!(payload.memo(), Some(&memo()[..]));
    let (_, token) = StxTokenTransfer::from_bytes(&bytes[1..]).unwrap();
    assert_eq!(token.raw_address(), &HASH);
    assert_eq!(token.amount_stx().unwrap().as_slice(), b"18446744073709551615");
    assert_eq!(token.clone(), token);
}

#[test]
fn amounts_in_decimal() {
    for (amount, text) in [(0u64, "0"), (7, "7"), (10, "10"), (1000000, "1000000")] {
        let bytes = transfer(22, None, amount);
        let (_, token) = StxTokenTransfer::from_bytes(&bytes[1..]).unwrap();
        assert_eq!(token.amount_stx().unwrap().as_slice(), text.as_bytes());
    }
}

#[test]
fn every_shorter_transfer_is_refused() {
    for bytes in [transfer(22, None, 5), transfer(22, Some(b"abc"), 5)] {
        for len in 0..bytes.len() {
            assert_eq!(
                error(&bytes[..len], false),
                ParserError::parser_unexpected_buffer_end
            );
        }
        assert!(TransactionPayload::from_bytes(&bytes, false).is_ok());
    }
}

#[test]
fn transfer_errors() {
    let mut bytes = transfer(22, None, 5);
    bytes[1] = 7;
    assert_eq!(
        error(&bytes, false),
        ParserError::parser_invalid_token_transfer_principal
    );
    let mut bytes = transfer(22, Some(b"abc"), 5);
    bytes[23] = 129;
    assert_eq!(error(&bytes, false), ParserError::parser_value_out_of_range);
    let bytes = transfer(32, None, 5);
    let (_, token) = StxTokenTransfer::from_bytes(&bytes[1..]).unwrap();
    assert_eq!(
        token.encoded_address().unwrap_err(),
        ParserError::parser_invalid_address_version
    );
    let (_, payload) = TransactionPayload::from_bytes(&bytes, false).unwrap();
    assert!(payload.recipient_address().is_none());
}

#[test]
fn call_reads_back() {
    let bytes = call(22, b"pool", b"stake", 2, &[1, 2, 3]);
    let (rest, payload) = TransactionPayload::from_bytes(&bytes, false).unwrap();
    assert!(rest.is_empty());
    assert!(payload.is_contract_call_payload());
    assert!(!payload.is_token_transfer_payload());
    assert!(!payload.is_smart_contract_payload());
    assert_eq!(payload.contract_name(), Some(&b"pool"[..]));
    assert_eq!(payload.function_name(), Some(&b"stake"[..]));
    assert_eq!(payload.num_args(false), Some(2));
    assert_eq!(payload.amount(), None);
    assert_eq!(payload.memo(), None);
    assert!(payload.recipient_address().is_none());
    assert_eq!(
        payload.contract_address().unwrap().as_slice(),
        b"SP2J6ZY48GV1EZ5V2V5RB9MP66SW86PYKKNRV9EJ7"
    );
    let (_, parsed) = TransactionContractCall::from_bytes(&bytes[1..], false).unwrap();
    assert_eq!(parsed.num_items(), 3);
    assert_eq!(parsed.contract_name(), Ok(&b"pool"[..]));
    assert_eq!(parsed.function_name(), Ok(&b"stake"[..]));
    let args = parsed.function_args(false).unwrap();
    assert_eq!(args, Arguments::from_bytes(&[0, 0, 0, 2, 1, 2, 3], false).unwrap().1);
    assert_eq!(args.num_args(), Ok(2));
}

#[test]
fn expert_mode_lifts_the_limit_on_arguments() {
    let ten = call(22, b"c", b"f", 10, &[]);
    let eleven = call(22, b"c", b"f", 11, &[]);
    assert!(TransactionPayload::from_bytes(&ten, false).is_ok());
    assert_eq!(
        TransactionPayload::from_bytes(&ten, false),
        TransactionPayload::from_bytes(&ten, true)
    );
    assert_eq!(
        error(&eleven, false),
        ParserError::parser_invalid_transaction_payload
    );
    let (_, payload) = TransactionPayload::from_bytes(&eleven, true).unwrap();
    assert_eq!(payload.num_args(true), Some(11));
    assert_eq!(payload.num_args(false), None);
    let (_, parsed) = TransactionContractCall::from_bytes(&eleven[1..], true).unwrap();
    assert_eq!(
        parsed.function_args(false),
        Err(ParserError::parser_invalid_argument_id)
    );
    assert_eq!(parsed.num_args(false), Err(ParserError::parser_invalid_argument_id));
    assert_eq!(parsed.num_args(true), Ok(11));
}

#[test]
fn call_errors() {
    let bytes = call(22, b"pool", b"stake", 2, &[]);
    assert_eq!(
        error(&bytes[..21], false),
        ParserError::parser_unexpected_buffer_end
    );
    assert_eq!(error(&bytes[..25], false), ParserError::parser_unexpected_type);
    assert_eq!(error(&bytes[..30], false), ParserError::parser_unexpected_type);
    assert_eq!(
        error(&bytes[..bytes.len() - 1], false),
        ParserError::parser_unexpected_buffer_end
    );
    assert_eq!(
        Arguments::from_bytes(&[0, 0, 0], true),
        Err(ParserError::parser_unexpected_buffer_end)
    );
    let bytes = call(40, b"pool", b"stake", 2, &[]);
    let (_, parsed) = TransactionContractCall::from_bytes(&bytes[1..], false).unwrap();
    assert_eq!(
        parsed.contract_address().unwrap_err(),
        ParserError::parser_invalid_address_version
    );
}

#[test]
fn publication_reads_back() {
    let mut bytes = vec![1];
    bytes.extend(name(b"token"));
    bytes.extend_from_slice(b"(define-data-var n int 0)");
    let (rest, payload) = TransactionPayload::from_bytes(&bytes, false).unwrap();
    assert!(rest.is_empty());
    assert!(payload.is_smart_contract_payload());
    assert_eq!(payload.contract_name(), Some(&b"token"[..]));
    assert_eq!(payload.num_items(), 1);
    assert_eq!(payload.clone(), payload);
}

#[test]
fn publication_without_a_name() {
    let (_, payload) = TransactionPayload::from_bytes(&[1, 5, 97], false).unwrap();
    assert_eq!(payload.contract_name(), None);
    let (_, contract) = TransactionSmartContract::from_bytes(&[]).unwrap();
    assert_eq!(
        contract.contract_name(),
        Err(ParserError::parser_invalid_contract_name)
    );
}

#[test]
fn payload_kinds() {
    assert_eq!(TransactionPayloadId::from_u8(0), Ok(TransactionPayloadId::TokenTransfer));
    assert_eq!(TransactionPayloadId::from_u8(1), Ok(TransactionPayloadId::SmartContract));
    assert_eq!(TransactionPayloadId::from_u8(2), Ok(TransactionPayloadId::ContractCall));
    assert_eq!(
        TransactionPayloadId::from_u8(3),
        Err(ParserError::parser_invalid_transaction_payload)
    );
    assert_eq!(TokenTranferPrincipal::from_u8(5), Ok(TokenTranferPrincipal::Standard));
    assert_eq!(TokenTranferPrincipal::from_u8(6), Ok(TokenTranferPrincipal::Contract));
    assert_eq!(
        TokenTranferPrincipal::from_u8(4),
        Err(ParserError::parser_invalid_token_transfer_principal)
    );
    assert_eq!(error(&[], false), ParserError::parser_unexpected_buffer_end);
    assert_eq!(error(&[3], true), ParserError::parser_invalid_transaction_payload);
}

#[test]
fn kinds_as_bytes() {
    assert_eq!(TokenTranferPrincipal::Standard.to_u8(), 5);
    assert_eq!(TokenTranferPrincipal::Contract.to_u8(), 6);
    assert_eq!(TransactionPayloadId::TokenTransfer.to_u8(), 0);
    assert_eq!(TransactionPayloadId::SmartContract.to_u8(), 1);
    assert_eq!(TransactionPayloadId::ContractCall.to_u8(), 2);
    for v in 0..=255u8 {
        if let Ok(kind) = TokenTranferPrincipal::from_u8(v) {
            assert_eq!(kind.to_u8(), v);
        }
        if let Ok(kind) = TransactionPayloadId::from_u8(v) {
            assert_eq!(kind.to_u8(), v);
        }
    }
    for kind in [TokenTranferPrincipal::Standard, TokenTranferPrincipal::Contract] {
        assert_eq!(TokenTranferPrincipal::from_u8(kind.to_u8()), Ok(kind));
    }
}

#[test]
fn items_of_a_transfer() {
    let bytes = transfer(22, None, 1234567);
    let (_, payload) = TransactionPayload::from_bytes(&bytes, false).unwrap();
    let mut key = [0u8; 20];
    let mut value = [0xffu8; 50];
    assert_eq!(payload.get_items(0, &mut key, &mut value, 0), Ok(1));
    assert_eq!(&key, b"Amount uSTX\0\0\0\0\0\0\0\0\0");
    assert_eq!(&value[..8], b"1234567\0");
    assert_eq!(value[49], 0);

    // The label only covers the front of the line.
    assert_eq!(payload.get_items(1, &mut key, &mut value, 0), Ok(1));
    assert_eq!(&key[..11], b"Toount uSTX");
    assert_eq!(&value[..42], b"SP2J6ZY48GV1EZ5V2V5RB9MP66SW86PYKKNRV9EJ7\0");

    assert_eq!(payload.get_items(2, &mut key, &mut value, 0), Ok(1));
    assert_eq!(&key[..4], b"Memo");
    assert_eq!(&value[..12], b"hello world\0");
}

#[test]
fn items_start_over() {
    let bytes = transfer(22, None, 9);
    let (_, payload) = TransactionPayload::from_bytes(&bytes, false).unwrap();
    for idx in 0..=255u8 {
        let (mut key, mut value) = ([1u8; 20], [2u8; 50]);
        let (mut key2, mut value2) = ([1u8; 20], [2u8; 50]);
        let shown = payload.get_items(idx, &mut key, &mut value, 0);
        assert_eq!(shown, payload.get_items(idx % 3, &mut key2, &mut value2, 0));
        assert_eq!((key, value), (key2, value2));
        assert_eq!(shown, Ok(1));
    }
}

#[test]
fn address_on_several_pages() {
    let bytes = transfer(22, None, 9);
    let (_, payload) = TransactionPayload::from_bytes(&bytes, false).unwrap();
    let mut shown: Vec<u8> = Vec::new();
    for page in 0..5 {
        let mut key = [0u8; 2];
        let mut value = [0xffu8; 11];
        assert_eq!(payload.get_items(1, &mut key, &mut value, page), Ok(5));
        assert_eq!(&key, b"To");
        assert_eq!(value[10], 0);
        shown.extend(value.iter().copied().filter(|b| *b != 0));
    }
    assert_eq!(shown, b"SP2J6ZY48GV1EZ5V2V5RB9MP66SW86PYKKNRV9EJ7");
    let mut key = [0u8; 2];
    let mut value = [0xffu8; 11];
    assert_eq!(payload.get_items(1, &mut key, &mut value, 5), Ok(5));
    assert_eq!(value, [0u8; 11]);
}

#[test]
fn items_of_a_call() {
    let bytes = call(22, b"pool", b"stake", 0, &[]);
    let (_, payload) = TransactionPayload::from_bytes(&bytes, false).unwrap();
    let labels = ["Contract address", "Contract name", "Function name"];
    let texts = ["SP2J6ZY48GV1EZ5V2V5RB9MP66SW86PYKKNRV9EJ7", "pool", "stake"];
    for idx in 0..3usize {
        let mut key = [0u8; 16];
        let mut value = [0u8; 50];
        assert_eq!(payload.get_items(idx as u8, &mut key, &mut value, 0), Ok(1));
        assert_eq!(&key[..labels[idx].len()], labels[idx].as_bytes());
        assert_eq!(&value[..texts[idx].len()], texts[idx].as_bytes());
        assert_eq!(value[texts[idx].len()], 0);
    }
}

#[test]
fn items_of_a_publication() {
    let (_, payload) = TransactionPayload::from_bytes(&[1, 2, 97, 98, 40], false).unwrap();
    let mut key = [0u8; 13];
    let mut value = [0u8; 3];
    assert_eq!(payload.get_items(7, &mut key, &mut value, 0), Ok(1));
    assert_eq!(&key, b"Contract Name");
    assert_eq!(&value, b"ab\0");

    let (_, nameless) = TransactionPayload::from_bytes(&[1], false).unwrap();
    let mut key = [0u8; 13];
    let mut value = [7u8; 3];
    assert_eq!(
        nameless.get_items(0, &mut key, &mut value, 0),
        Err(ParserError::parser_invalid_contract_name)
    );
    assert_eq!(&key, b"Contract Name");
    assert_eq!(value, [7u8; 3]);
}

#[test]
fn items_that_are_refused() {
    let bytes = transfer(33, None, 9);
    let (_, payload) = TransactionPayload::from_bytes(&bytes, false).unwrap();
    let mut key = [9u8; 1];
    let mut value = [9u8; 20];
    assert_eq!(
        payload.get_items(1, &mut key, &mut value, 0),
        Err(ParserError::parser_unexpected_buffer_end)
    );
    assert_eq!((key, value), ([9u8; 1], [9u8; 20]));
    let mut key = [9u8; 3];
    assert_eq!(
        payload.get_items(1, &mut key, &mut value, 0),
        Err(ParserError::parser_invalid_address_version)
    );
    assert_eq!((&key, value), (b"To\x09", [9u8; 20]));
    let mut key = [9u8; 11];
    let mut value = [9u8; 1];
    assert_eq!(
        payload.get_items(0, &mut key, &mut value, 0),
        Err(ParserError::parser_unexpected_buffer_end)
    );
    assert_eq!((&key, value), (b"Amount uSTX", [9u8; 1]));
}

#[test]
fn items_out_of_range() {
    let mut key = [0u8; 20];
    let mut value = [0u8; 20];
    let bytes = transfer(22, None, 9);
    let (_, token) = StxTokenTransfer::from_bytes(&bytes[1..]).unwrap();
    assert_eq!(
        token.get_token_transfer_items(3, &mut key, &mut value, 0),
        Err(ParserError::parser_display_idx_out_of_range)
    );
    let bytes = call(22, b"c", b"f", 0, &[]);
    let (_, parsed) = TransactionContractCall::from_bytes(&bytes[1..], false).unwrap();
    assert_eq!(
        parsed.get_contract_call_items(3, &mut key, &mut value, 0),
        Err(ParserError::parser_value_out_of_range)
    );
    let (_, contract) = TransactionSmartContract::from_bytes(&[1, 97]).unwrap();
    assert_eq!(
        contract.get_contract_items(1, &mut key, &mut value, 0),
        Err(ParserError::parser_value_out_of_range)
    );
    assert_eq!((key, value), ([0u8; 20], [0u8; 20]));
}
