//! Addresses in c32check: base 32 with a checksum.

use crate::error::ParserError;
use crate::input::{be_value, lemma_be_value_bound, lemma_be_value_leading_zero, pow256};
use crate::parser_common::HASH160_LEN;
use crate::text::{AddressText, C32_ENCODED_ADDRS_LENGTH};
use sha2::Digest;
use vstd::prelude::*;

verus! {

/// The digits of base 32. Letters that are easily misread are left out.
pub const C32_CHARACTERS: &'static str = "0123456789ABCDEFGHJKMNPQRSTVWXYZ";

/// How many bytes of the hash make the checksum.
pub const CHECKSUM_LEN: usize = 4;

/// The character for a digit of base 32.
pub open spec fn c32_char(digit: nat) -> u8 {
    "0123456789ABCDEFGHJKMNPQRSTVWXYZ"@[digit as int] as u8
}

/// `n` in base 32, most significant digit first and without leading zeros, so
/// that zero has no digits.
pub open spec fn c32_digits(n: nat) -> Seq<u8>
    decreases n,
{
    if n == 0 {
        Seq::empty()
    } else {
        c32_digits(n / 32).push(c32_char(n % 32))
    }
}

/// How many zero bytes `data` starts with.
pub open spec fn leading_zeros(data: Seq<u8>) -> nat
    decreases data.len(),
{
    if data.len() == 0 || data[0] != 0 {
        0
    } else {
        1 + leading_zeros(data.drop_first())
    }
}

/// `data` as a number in base 32, behind one zero for each leading zero byte.
pub open spec fn c32_encoding(data: Seq<u8>) -> Seq<u8> {
    Seq::new(leading_zeros(data), |i: int| c32_char(0)) + c32_digits(be_value(data))
}

/// An address with the checksum given: the letter S, the version, then the hash
/// and the checksum in base 32.
pub open spec fn c32_text(version: u8, data: Seq<u8>, checksum: Seq<u8>) -> Seq<u8> {
    seq![83u8, c32_char(version as nat)] + c32_encoding(data + checksum)
}

/// The SHA-256 digest of `data`.
pub uninterp spec fn sha256_digest(data: Seq<u8>) -> Seq<u8>;

/// The checksum of an address: the front of the twofold digest of the version
/// and the hash.
pub open spec fn c32_checksum(version: u8, data: Seq<u8>) -> Seq<u8> {
    sha256_digest(sha256_digest(seq![version] + data)).take(CHECKSUM_LEN as int)
}

/// The address for a version and a hash.
pub open spec fn c32_address_text(version: u8, data: Seq<u8>) -> Seq<u8> {
    c32_text(version, data, c32_checksum(version, data))
}

/// `sha2::Sha256::digest`: the SHA-256 digest, which depends on the bytes alone.
#[verifier::external_body]
fn sha256(data: &[u8]) -> (digest: [u8; 32])
    ensures
        digest@ == sha256_digest(data@),
{
    sha2::Sha256::digest(data).into()
}

/// `n` in base 32, least significant digit first.
spec fn low_digits(n: nat) -> Seq<u8>
    decreases n,
{
    if n == 0 {
        Seq::empty()
    } else {
        seq![(n % 32) as u8] + low_digits(n / 32)
    }
}

/// The two orders of digits mirror each other.
proof fn lemma_mirrored(n: nat)
    ensures
        c32_digits(n).len() == low_digits(n).len(),
        forall|i: int|
            0 <= i < low_digits(n).len() ==> {
                &&& #[trigger] low_digits(n)[i] < 32
                &&& c32_digits(n)[low_digits(n).len() - 1 - i] == c32_char(
                    low_digits(n)[i] as nat,
                )
            },
    decreases n,
{
    if n > 0 {
        lemma_mirrored(n / 32);
        let low = low_digits(n);
        let rest = low_digits(n / 32);
        assert forall|i: int| 0 <= i < low.len() implies {
            &&& #[trigger] low[i] < 32
            &&& c32_digits(n)[low.len() - 1 - i] == c32_char(low[i] as nat)
        } by {
            if i > 0 {
                assert(low[i] == rest[i - 1]);
            }
        }
    }
}

/// The character for a digit of base 32.
fn c32_character(digit: u8) -> (c: u8)
    requires
        digit < 32,
    ensures
        c == c32_char(digit as nat),
{
    proof {
        reveal_strlit("0123456789ABCDEFGHJKMNPQRSTVWXYZ");
        vstd::utf8::is_ascii_chars_encode_utf8(C32_CHARACTERS@);
    }
    C32_CHARACTERS.as_bytes()[digit as usize]
}

/// Multiplies a number in base 32 by 256 and adds `byte`.
fn append_byte(digits: &mut Vec<u8>, byte: u8, Ghost(n): Ghost<nat>)
    requires
        old(digits)@ == low_digits(n),
    ensures
        final(digits)@ == low_digits(256 * n + byte as nat),
{
    let ghost before = digits@;
    let ghost total = low_digits(256 * n + byte as nat);
    let ghost mut left = n;
    let mut carry: u32 = byte as u32;
    let mut i: usize = 0;
    assert(before.skip(0) =~= before);
    assert(total =~= digits@.take(0) + low_digits(256 * left + carry as nat));
    while i < digits.len()
        invariant
            i <= digits@.len(),
            digits@.len() == before.len(),
            digits@.skip(i as int) == before.skip(i as int),
            before.skip(i as int) == low_digits(left),
            carry < 256,
            total == digits@.take(i as int) + low_digits(256 * left + carry as nat),
        decreases digits@.len() - i,
    {
        let ghost entry = digits@;
        let ghost held = 256 * left + carry as nat;
        assert(before.skip(i as int).len() > 0);
        assert(left > 0);
        assert(before.skip(i as int)[0] == before[i as int]);
        assert(digits@.skip(i as int)[0] == digits@[i as int]);
        assert(digits@[i as int] == (left % 32) as u8);
        let sum: u32 = digits[i] as u32 * 256 + carry;
        digits[i] = (sum % 32) as u8;
        carry = sum / 32;
        i = i + 1;
        proof {
            left = left / 32;
            assert(held % 32 == sum as nat % 32);
            assert(held / 32 == 256 * left + carry as nat);
            assert(low_digits(held) == seq![(held % 32) as u8] + low_digits(held / 32));
            assert(digits@.take(i as int) =~= entry.take(i - 1) + seq![(held % 32) as u8]);
            assert(total =~= digits@.take(i as int) + low_digits(256 * left + carry as nat));
            assert(digits@.skip(i as int) =~= entry.skip(i - 1).drop_first());
            assert(before.skip(i as int) =~= before.skip(i - 1).drop_first());
            assert(low_digits(left) =~= before.skip(i - 1).drop_first());
        }
    }
    assert(left == 0);
    assert(digits@.take(i as int) =~= digits@);
    while carry > 0
        invariant
            carry < 256,
            total == digits@ + low_digits(carry as nat),
        decreases carry,
    {
        digits.push((carry % 32) as u8);
        assert(total =~= digits@ + low_digits((carry / 32) as nat));
        carry = carry / 32;
    }
    assert(total =~= digits@);
}

/// Encodes `data` in base 32, with a zero in front for each leading zero byte.
pub fn c32_encode(data: &[u8]) -> (text: Vec<u8>)
    ensures
        text@ == c32_encoding(data@),
{
    let mut text: Vec<u8> = Vec::new();
    let mut zeros: usize = 0;
    assert(data@.skip(0) =~= data@);
    while zeros < data.len() && data[zeros] == 0
        invariant
            zeros <= data@.len(),
            leading_zeros(data@) == zeros + leading_zeros(data@.skip(zeros as int)),
            text@ == Seq::new(zeros as nat, |i: int| c32_char(0)),
        decreases data@.len() - zeros,
    {
        text.push(c32_character(0));
        assert(data@.skip(zeros as int).drop_first() =~= data@.skip(zeros + 1));
        zeros = zeros + 1;
        assert(text@ =~= Seq::new(zeros as nat, |i: int| c32_char(0)));
    }
    assert(text@ =~= Seq::new(leading_zeros(data@), |i: int| c32_char(0)));
    let ghost front = text@;
    let mut digits: Vec<u8> = Vec::new();
    let mut i: usize = 0;
    while i < data.len()
        invariant
            i <= data@.len(),
            digits@ == low_digits(be_value(data@.take(i as int))),
        decreases data@.len() - i,
    {
        let ghost n = be_value(data@.take(i as int));
        append_byte(&mut digits, data[i], Ghost(n));
        assert(data@.take(i + 1).drop_last() =~= data@.take(i as int));
        i = i + 1;
    }
    assert(data@.take(i as int) =~= data@);
    let ghost n = be_value(data@);
    proof {
        lemma_mirrored(n);
    }
    let mut left: usize = digits.len();
    while left > 0
        invariant
            left <= digits@.len(),
            digits@ == low_digits(n),
            digits@.len() == c32_digits(n).len(),
            forall|k: int|
                0 <= k < low_digits(n).len() ==> {
                    &&& #[trigger] low_digits(n)[k] < 32
                    &&& c32_digits(n)[low_digits(n).len() - 1 - k] == c32_char(
                        low_digits(n)[k] as nat,
                    )
                },
            text@ == front + c32_digits(n).take(digits@.len() - left),
        decreases left,
    {
        left = left - 1;
        assert(low_digits(n)[left as int] < 32);
        text.push(c32_character(digits[left]));
        assert(text@ =~= front + c32_digits(n).take(digits@.len() - left));
    }
    assert(c32_digits(n).take(digits@.len() as int) =~= c32_digits(n));
    text
}

/// An address from its version, its hash and the checksum of the two.
pub fn c32_address_with_checksum(version: u8, data: &[u8], checksum: &[u8]) -> (res: Result<
    AddressText,
    ParserError,
>)
    ensures
        match res {
            Ok(text) => version < 32 && text@ == c32_text(version, data@, checksum@) && text@.len()
                <= C32_ENCODED_ADDRS_LENGTH,
            Err(e) => if version >= 32 {
                e == ParserError::parser_invalid_address_version
            } else {
                c32_text(version, data@, checksum@).len() > C32_ENCODED_ADDRS_LENGTH && e
                    == ParserError::parser_unexpected_buffer_end
            },
        },
{
    if version >= 32 {
        return Err(ParserError::parser_invalid_address_version);
    }
    let mut payload: Vec<u8> = Vec::new();
    payload.extend_from_slice(data);
    payload.extend_from_slice(checksum);
    assert(payload@ =~= data@ + checksum@);
    let encoded = c32_encode(payload.as_slice());
    let mut text: Vec<u8> = Vec::new();
    text.push(83);
    text.push(c32_character(version));
    text.extend_from_slice(encoded.as_slice());
    assert(text@ =~= c32_text(version, data@, checksum@));
    AddressText::from_slice(text.as_slice())
}

/// The address for a version and a hash. A version has to be a digit of base 32.
pub fn c32_address(version: u8, data: &[u8]) -> (res: Result<AddressText, ParserError>)
    ensures
        match res {
            Ok(text) => version < 32 && text@ == c32_address_text(version, data@) && text@.len()
                <= C32_ENCODED_ADDRS_LENGTH,
            Err(e) => if version >= 32 {
                e == ParserError::parser_invalid_address_version
            } else {
                c32_address_text(version, data@).len() > C32_ENCODED_ADDRS_LENGTH && e
                    == ParserError::parser_unexpected_buffer_end
            },
        },
        data@.len() == HASH160_LEN && version < 32 ==> res is Ok,
{
    if version >= 32 {
        return Err(ParserError::parser_invalid_address_version);
    }
    let mut message: Vec<u8> = Vec::new();
    message.push(version);
    message.extend_from_slice(data);
    assert(message@ =~= seq![version] + data@);
    let once = sha256(message.as_slice());
    let twice = sha256(&once);
    let checksum = &twice[0..CHECKSUM_LEN];
    assert(checksum@ =~= c32_checksum(version, data@));
    proof {
        lemma_encoding_len(data@ + checksum@);
    }
    c32_address_with_checksum(version, data, checksum)
}

/// How many numbers `k` digits of base 32 can hold.
spec fn pow32(k: nat) -> nat
    decreases k,
{
    if k == 0 {
        1
    } else {
        32 * pow32((k - 1) as nat)
    }
}

/// A number below `32^k` has at most `k` digits.
proof fn lemma_digits_len(n: nat, k: nat)
    requires
        n < pow32(k),
    ensures
        c32_digits(n).len() <= k,
    decreases k,
{
    if n > 0 {
        lemma_digits_len(n / 32, (k - 1) as nat);
    }
}

/// Five bytes make eight digits.
proof fn lemma_pow256_pow32(m: nat)
    ensures
        pow256(m) <= pow32((8 * m + 4) / 5),
    decreases m,
{
    reveal_with_fuel(pow256, 6);
    reveal_with_fuel(pow32, 9);
    if m >= 5 {
        lemma_pow256_pow32((m - 5) as nat);
        assert((8 * m + 4) / 5 == (8 * (m - 5) + 4) / 5 + 8);
    }
}

/// Leading zero bytes can be dropped from a number.
pub proof fn lemma_skip_leading_zeros(data: Seq<u8>)
    ensures
        leading_zeros(data) <= data.len(),
        be_value(data) == be_value(data.skip(leading_zeros(data) as int)),
    decreases data.len(),
{
    if data.len() > 0 && data[0] == 0 {
        lemma_be_value_leading_zero(data);
        lemma_skip_leading_zeros(data.drop_first());
        assert(data.drop_first().skip(leading_zeros(data.drop_first()) as int) =~= data.skip(
            leading_zeros(data) as int,
        ));
    } else {
        assert(data.skip(0) =~= data);
    }
}

/// Base 32 takes eight characters for five bytes, rounded up.
pub proof fn lemma_encoding_len(data: Seq<u8>)
    ensures
        c32_encoding(data).len() <= (8 * data.len() + 4) / 5,
{
    let zeros = leading_zeros(data);
    lemma_skip_leading_zeros(data);
    let rest = data.skip(zeros as int);
    lemma_be_value_bound(rest);
    lemma_pow256_pow32(rest.len());
    lemma_digits_len(be_value(rest), (8 * rest.len() + 4) / 5);
}

} // verus!
