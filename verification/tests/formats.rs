use stacks_payload::c32::{c32_address, c32_address_with_checksum, c32_encode};
use stacks_payload::error::ParserError;
use stacks_payload::parser_common::{
    u8_with_limits, ClarityName, ContractName, PrincipalData, StacksAddress,
};
use stacks_payload::text::{AddressText, AmountText};
use stacks_payload::zxformat::{page_string, u64_to_str, write_bytes, write_str};

const HASH: [u8; 20] = [
    0xa4, 0x6f, 0xf8, 0x88, 0x86, 0xc2, 0xef, 0x97, 0x62, 0xd9, 0x70, 0xb4, 0xd2, 0xc6, 0x36, 0x78,
    0x83, 0x5b, 0xd3, 0x9d,
];

#[test]
fn known_addresses() {
    let expected: [(u8, &[u8; 20], &[u8]); 5] = [
        (22, &HASH, b"SP2J6ZY48GV1EZ5V2V5RB9MP66SW86PYKKNRV9EJ7"),
        (0, &HASH, b"S02J6ZY48GV1EZ5V2V5RB9MP66SW86PYKKPVKG2CE"),
        (31, &HASH, b"SZ2J6ZY48GV1EZ5V2V5RB9MP66SW86PYKKQ9H6DPR"),
        (22, &[0u8; 20], b"SP000000000000000000002Q6VF78"),
        (26, &[0u8; 20], b"ST000000000000000000002AMW42H"),
    ];
    for (version, hash, text) in expected {
        assert_eq!(c32_address(version, hash).unwrap().as_slice(), text);
    }
}

#[test]
fn refused_addresses() {
    assert_eq!(
        c32_address(32, &HASH).unwrap_err(),
        ParserError::parser_invalid_address_version
    );
    assert_eq!(
        c32_address(1, &[0xff; 40]).unwrap_err(),
        ParserError::parser_unexpected_buffer_end
    );
}

#[test]
fn address_with_a_checksum_given() {
    assert_eq!(
        c32_address_with_checksum(1, &[0, 1], &[0]).unwrap().as_slice(),
        b"S1080"
    );
    assert_eq!(
        c32_address_with_checksum(32, &[0, 1], &[0]).unwrap_err(),
        ParserError::parser_invalid_address_version
    );
}

#[test]
fn base_32() {
    assert_eq!(c32_encode(&[]), b"");
    assert_eq!(c32_encode(&[0]), b"0");
    assert_eq!(c32_encode(&[0, 1, 0]), b"080");
    assert_eq!(c32_encode(&[31]), b"Z");
    assert_eq!(c32_encode(&[32]), b"10");
    assert_eq!(c32_encode(&HASH), b"MHQZH246RBQSERPSE2TD5HHPF21NQMWX");
}

#[test]
fn inline_texts() {
    assert_eq!(AddressText::from_slice(b"abc").unwrap().as_slice(), b"abc");
    assert_eq!(AddressText::from_slice(&[b'a'; 48]).unwrap().as_slice(), &[b'a'; 48]);
    assert_eq!(
        AddressText::from_slice(&[b'a'; 49]).unwrap_err(),
        ParserError::parser_unexpected_buffer_end
    );
    let mut chars = [b'0'; 30];
    chars[0] = b'7';
    assert_eq!(AmountText::from_array(chars, 2).as_slice(), b"70");
    assert_eq!(AmountText::from_array(chars, 31).as_slice(), &chars);
}

#[test]
fn inline_texts_are_cloned_and_compared() {
    let address = AddressText::from_slice(b"abc").unwrap();
    let copy = address.clone();
    assert_eq!(copy.as_slice(), b"abc");
    assert_eq!(copy, address);
    assert_ne!(AddressText::from_slice(b"abd").unwrap(), address);
    assert_ne!(AddressText::from_slice(b"ab").unwrap(), address);

    let mut chars = [b'0'; 30];
    chars[0] = b'7';
    let amount = AmountText::from_array(chars, 2);
    let copy = amount.clone();
    assert_eq!(copy.as_slice(), b"70");
    assert_eq!(copy, amount);
    chars[29] = b'9';
    assert_eq!(AmountText::from_array(chars, 2), amount);
    assert_ne!(AmountText::from_array(chars, 3), amount);
}

#[test]
fn decimal_numbers() {
    let mut out = [9u8; 4];
    assert_eq!(u64_to_str(&mut out, 120), Ok(3));
    assert_eq!(&out, b"120\x09");
    assert_eq!(u64_to_str(&mut out, 0), Ok(1));
    assert_eq!(&out, b"020\x09");
    assert_eq!(
        u64_to_str(&mut out, 12345),
        Err(ParserError::parser_unexpected_buffer_end)
    );
    assert_eq!(&out, b"020\x09");
    let mut out = [0u8; 20];
    assert_eq!(u64_to_str(&mut out, u64::MAX), Ok(20));
    assert_eq!(&out, b"18446744073709551615");
}

#[test]
fn labels() {
    let mut out = [0u8; 3];
    assert_eq!(write_str(&mut out, "To"), Ok(()));
    assert_eq!(&out, b"To\0");
    assert_eq!(
        write_str(&mut out, "Memo"),
        Err(ParserError::parser_unexpected_buffer_end)
    );
    assert_eq!(&out, b"To\0");
    assert_eq!(write_bytes(&mut out, b"abc"), Ok(()));
    assert_eq!(&out, b"abc");
}

#[test]
fn pages_of_a_text() {
    let text = b"abcdefgh";
    for (page, line) in [(0u8, b"abc\0"), (1, b"def\0"), (2, b"gh\0\0"), (3, b"\0\0\0\0")] {
        let mut out = [9u8; 4];
        assert_eq!(page_string(&mut out, text, page), Ok(3));
        assert_eq!(&out, line);
    }
    let mut out = [9u8; 5];
    assert_eq!(page_string(&mut out, text, 1), Ok(2));
    assert_eq!(&out, b"efgh\0");
    assert_eq!(page_string(&mut out, b"", 0), Ok(0));
    assert_eq!(out, [0u8; 5]);
}

#[test]
fn refused_pages() {
    let mut out = [9u8; 2];
    assert_eq!(page_string(&mut out, &[b'a'; 255], 254), Ok(255));
    assert_eq!(&out, b"a\0");
    assert_eq!(
        page_string(&mut out, &[b'a'; 256], 0),
        Err(ParserError::parser_display_page_out_of_range)
    );
    assert_eq!(&out, b"a\0");
    let mut out = [9u8; 1];
    assert_eq!(
        page_string(&mut out, b"", 0),
        Err(ParserError::parser_unexpected_buffer_end)
    );
    assert_eq!(out, [9u8; 1]);
    let mut out: [u8; 0] = [];
    assert_eq!(
        page_string(&mut out, b"a", 0),
        Err(ParserError::parser_unexpected_buffer_end)
    );
}

#[test]
fn names() {
    let bytes = [2, 97, 98, 99];
    assert_eq!(ContractName::from_bytes(&bytes), Ok((&[99u8][..], ContractName(&[97, 98]))));
    assert_eq!(ClarityName::from_bytes(&bytes), Ok((&[99u8][..], ClarityName(&[97, 98]))));
    assert_eq!(ClarityName::from_bytes(&[0]), Ok((&[][..], ClarityName(&[]))));
    assert_eq!(
        ContractName::from_bytes(&[3, 97, 98]),
        Err(ParserError::parser_unexpected_buffer_end)
    );
    let mut long = vec![128u8];
    long.resize(129, 97);
    assert_eq!(ContractName::from_bytes(&long).unwrap().1 .0.len(), 128);
    long[0] = 129;
    assert_eq!(
        ContractName::from_bytes(&long),
        Err(ParserError::parser_value_out_of_range)
    );
    assert_eq!(
        u8_with_limits(4, &[]),
        Err(ParserError::parser_unexpected_buffer_end)
    );
    assert_eq!(u8_with_limits(4, &[4, 1]), Ok((&[1u8][..], 4)));
    assert_eq!(u8_with_limits(4, &[5]), Err(ParserError::parser_value_out_of_range));
}

#[test]
fn principals() {
    let mut bytes = vec![22u8];
    bytes.extend_from_slice(&HASH);
    let address = StacksAddress(22, &HASH);
    assert_eq!(StacksAddress::from_bytes(&bytes), Ok((&[][..], address)));
    assert_eq!(
        StacksAddress::from_bytes(&bytes[..20]),
        Err(ParserError::parser_unexpected_buffer_end)
    );
    assert_eq!(
        PrincipalData::standard_from_bytes(&bytes),
        Ok((&[][..], PrincipalData::Standard(address)))
    );
    bytes.extend_from_slice(&[1, 99, 7]);
    assert_eq!(
        PrincipalData::contract_principal_from_bytes(&bytes),
        Ok((&[7u8][..], PrincipalData::Contract(address, ContractName(&[99]))))
    );
    assert_eq!(
        PrincipalData::contract_principal_from_bytes(&bytes[..22]),
        Err(ParserError::parser_unexpected_buffer_end)
    );
}
