//! What holds of the library as a whole.

use crate::c32::{
    c32_address_text, c32_char, c32_digits, c32_encoding, c32_text, leading_zeros,
    lemma_skip_leading_zeros, sha256_digest,
};
use crate::contract_call::{
    args_count, call_address, call_args, call_contract_name, call_function_name, call_item,
    call_names, contract_call_error, is_contract_call, MAX_NUM_ARGS,
};
use crate::display::{shown, Item};
use crate::error::ParserError;
use crate::input::{
    be_bytes, be_value, lemma_be_bytes_value, lemma_be_value_bound, lemma_be_value_injective,
    pow256,
};
use crate::parser_common::{
    address_len, after_name, encode_name, lemma_encode_name, HASH160_LEN, MAX_STRING_LEN,
};
use crate::payload::{item_count, payload_at, payload_item, Payload, TransactionPayloadId};
use crate::smart_contract::{smart_contract_item, smart_contract_name};
use crate::token_transfer::{
    is_token_transfer, lemma_token_transfer_prefix, recipient_len, token_address, token_amount,
    token_hash, token_item, token_memo, token_transfer_len, token_version, TokenTranferPrincipal,
    AMOUNT_LEN, MEMO_LEN,
};
use crate::zxformat::{
    decimal, decimal_value, lemma_page_start, overwrite, page_count, page_text, paged,
};
use vstd::prelude::*;
use vstd::utf8::encode_utf8;

verus! {

/// The recipient of a transfer: an address, and the contract there if it is one.
pub struct Recipient {
    pub version: u8,
    pub hash: Seq<u8>,
    pub contract: Option<Seq<u8>>,
}

impl Recipient {
    /// The hash has its length, and the name is not too long.
    pub open spec fn valid(self) -> bool {
        &&& self.hash.len() == 20
        &&& self.contract matches Some(name) ==> name.len() <= 128
    }

    /// The bytes of the recipient.
    pub open spec fn encode(self) -> Seq<u8> {
        match self.contract {
            None => seq![5u8, self.version] + self.hash,
            Some(name) => seq![6u8, self.version] + self.hash + encode_name(name),
        }
    }
}

/// The bytes of a transfer.
pub open spec fn encode_transfer(to: Recipient, amount: u64, memo: Seq<u8>) -> Seq<u8> {
    to.encode() + be_bytes(amount as nat, 8) + memo
}

/// The bytes of a call. The arguments are a count and their values.
pub open spec fn encode_call(
    version: u8,
    hash: Seq<u8>,
    contract: Seq<u8>,
    function: Seq<u8>,
    count: u32,
    values: Seq<u8>,
) -> Seq<u8> {
    seq![version] + hash + (encode_name(contract) + (encode_name(function) + (be_bytes(
        count as nat,
        4,
    ) + values)))
}

/// A recipient that is written out has its length, whatever follows it.
proof fn lemma_recipient(to: Recipient, tail: Seq<u8>)
    requires
        to.valid(),
    ensures
        recipient_len(to.encode() + tail) == Ok::<nat, ParserError>(to.encode().len()),
{
    let b = to.encode() + tail;
    match to.contract {
        None => {},
        Some(name) => {
            lemma_encode_name(name, tail);
            assert(b.skip(1).skip(address_len() as int) =~= encode_name(name) + tail);
        },
    }
}

/// The fields of a transfer that is written out.
#[verifier::spinoff_prover]
proof fn lemma_transfer_fields(to: Recipient, amount: u64, memo: Seq<u8>)
    requires
        to.valid(),
        memo.len() == 34,
    ensures
        ({
            let bytes = encode_transfer(to, amount, memo);
            &&& bytes.len() == to.encode().len() + 42
            &&& token_amount(bytes) == amount
            &&& token_memo(bytes) == memo
            &&& token_version(bytes) == to.version
            &&& token_hash(bytes) == to.hash
        }),
{
    let bytes = encode_transfer(to, amount, memo);
    let coded = be_bytes(amount as nat, 8);
    lemma_be_bytes_value(amount as nat, 8);
    assert(amount < pow256(8)) by {
        reveal_with_fuel(pow256, 9);
    }
    assert(token_memo(bytes) =~= memo);
    assert(bytes.subrange(bytes.len() - MEMO_LEN - AMOUNT_LEN, bytes.len() - MEMO_LEN) =~= coded);
    assert(token_hash(bytes) =~= to.hash);
}

/// A transfer that is written out reads back as it was, whatever follows it: the
/// amount, the message and the address of the recipient.
#[verifier::spinoff_prover]
pub proof fn transfer_round_trip(
    to: Recipient,
    amount: u64,
    memo: Seq<u8>,
    tail: Seq<u8>,
    expert_mode: bool,
)
    requires
        to.valid(),
        memo.len() == MEMO_LEN,
    ensures
        ({
            let bytes = encode_transfer(to, amount, memo);
            &&& payload_at(seq![0u8] + bytes + tail, expert_mode) == Ok::<
                (Payload, Seq<u8>),
                ParserError,
            >((Payload { kind: TransactionPayloadId::TokenTransfer, bytes }, tail))
            &&& token_amount(bytes) == amount
            &&& token_memo(bytes) == memo
            &&& token_version(bytes) == to.version
            &&& token_hash(bytes) == to.hash
            &&& token_address(bytes) == if to.version < 32 {
                Ok(c32_address_text(to.version, to.hash))
            } else {
                Err(ParserError::parser_invalid_address_version)
            }
        }),
{
    let bytes = encode_transfer(to, amount, memo);
    let coded = be_bytes(amount as nat, 8);
    lemma_transfer_fields(to, amount, memo);
    lemma_recipient(to, coded + memo + tail);
    assert(to.encode() + (coded + memo + tail) =~= bytes + tail);
    let whole = seq![0u8] + bytes + tail;
    assert(whole.skip(1) =~= bytes + tail);
    assert((bytes + tail).take(bytes.len() as int) =~= bytes);
    assert((bytes + tail).skip(bytes.len() as int) =~= tail);
}

/// A count of arguments reads back, and so do the values behind it.
pub proof fn lemma_args(count: u32, values: Seq<u8>)
    ensures
        (be_bytes(count as nat, 4) + values).len() >= 4,
        args_count(be_bytes(count as nat, 4) + values) == count,
        (be_bytes(count as nat, 4) + values).skip(4) == values,
{
    let args = be_bytes(count as nat, 4) + values;
    lemma_be_bytes_value(count as nat, 4);
    assert(count < pow256(4)) by {
        reveal_with_fuel(pow256, 5);
    }
    assert(args.take(4) =~= be_bytes(count as nat, 4));
    assert(args.skip(4) =~= values);
}

/// An address reads back, and so do the names behind it.
proof fn lemma_behind_address(version: u8, hash: Seq<u8>, names: Seq<u8>)
    requires
        hash.len() == HASH160_LEN,
    ensures
        ({
            let bytes = seq![version] + hash + names;
            &&& bytes.len() >= address_len()
            &&& bytes[0] == version
            &&& bytes.subrange(1, 21) == hash
            &&& call_names(bytes) == names
        }),
{
    let bytes = seq![version] + hash + names;
    assert(bytes.subrange(1, 21) =~= hash);
    assert(call_names(bytes) =~= names);
}

/// What the byte for a call announces takes up all that follows.
proof fn lemma_call_at(bytes: Seq<u8>, expert_mode: bool)
    ensures
        payload_at(seq![2u8] + bytes, expert_mode) == match contract_call_error(
            bytes,
            expert_mode,
        ) {
            None => Ok::<(Payload, Seq<u8>), ParserError>(
                (Payload { kind: TransactionPayloadId::ContractCall, bytes }, Seq::empty()),
            ),
            Some(e) => Err(e),
        },
{
    assert((seq![2u8] + bytes).skip(1) =~= bytes);
}

/// A call that is written out reads back as it was, except that outside of
/// expert mode it is refused where it has too many arguments.
#[verifier::spinoff_prover]
pub proof fn call_round_trip(
    version: u8,
    hash: Seq<u8>,
    contract: Seq<u8>,
    function: Seq<u8>,
    count: u32,
    values: Seq<u8>,
    expert_mode: bool,
)
    requires
        hash.len() == HASH160_LEN,
        contract.len() <= MAX_STRING_LEN,
        function.len() <= MAX_STRING_LEN,
    ensures
        ({
            let bytes = encode_call(version, hash, contract, function, count, values);
            &&& payload_at(seq![2u8] + bytes, expert_mode) == if expert_mode || count
                <= MAX_NUM_ARGS {
                Ok::<(Payload, Seq<u8>), ParserError>(
                    (Payload { kind: TransactionPayloadId::ContractCall, bytes }, Seq::empty()),
                )
            } else {
                Err(ParserError::parser_invalid_transaction_payload)
            }
            &&& bytes[0] == version
            &&& bytes.subrange(1, 21) == hash
            &&& call_contract_name(bytes) == contract
            &&& call_function_name(bytes) == function
            &&& args_count(call_args(bytes)) == count
            &&& call_args(bytes).skip(4) == values
            &&& call_address(bytes) == if version < 32 {
                Ok(c32_address_text(version, hash))
            } else {
                Err(ParserError::parser_invalid_address_version)
            }
        }),
{
    let bytes = encode_call(version, hash, contract, function, count, values);
    let args = be_bytes(count as nat, 4) + values;
    let names = encode_name(contract) + (encode_name(function) + args);
    lemma_args(count, values);
    lemma_encode_name(contract, encode_name(function) + args);
    lemma_encode_name(function, args);
    lemma_behind_address(version, hash, names);
    lemma_call_at(bytes, expert_mode);
}

/// Any bytes are the publication of a contract, and a name that is written in
/// front of the body reads back.
pub proof fn publication_round_trip(name: Seq<u8>, body: Seq<u8>, expert_mode: bool)
    requires
        name.len() <= MAX_STRING_LEN,
    ensures
        ({
            let bytes = encode_name(name) + body;
            &&& payload_at(seq![1u8] + bytes, expert_mode) == Ok::<(Payload, Seq<u8>), ParserError>(
                (Payload { kind: TransactionPayloadId::SmartContract, bytes }, Seq::empty()),
            )
            &&& smart_contract_name(bytes) == Ok::<Seq<u8>, ParserError>(name)
        }),
{
    let bytes = encode_name(name) + body;
    lemma_encode_name(name, body);
    assert((seq![1u8] + bytes).skip(1) =~= bytes);
}

/// Nothing is lost: the kind, the bytes of the payload and what is left over
/// make up the input again.
pub proof fn nothing_is_lost(b: Seq<u8>, expert_mode: bool)
    ensures
        payload_at(b, expert_mode) matches Ok((payload, left)) ==> b == seq![payload.kind.tag()]
            + payload.bytes + left,
{
    if let Ok((payload, left)) = payload_at(b, expert_mode) {
        if payload.kind == TransactionPayloadId::TokenTransfer {
            lemma_token_transfer_prefix(b.skip(1));
        }
        assert(b =~= seq![payload.kind.tag()] + payload.bytes + left);
    }
}

/// Every payload that is read is well-formed for its kind.
pub proof fn payloads_are_well_formed(b: Seq<u8>, expert_mode: bool)
    ensures
        payload_at(b, expert_mode) matches Ok((payload, _)) ==> match payload.kind {
            TransactionPayloadId::TokenTransfer => is_token_transfer(payload.bytes),
            TransactionPayloadId::SmartContract => true,
            TransactionPayloadId::ContractCall => is_contract_call(payload.bytes) && (expert_mode
                || args_count(call_args(payload.bytes)) <= MAX_NUM_ARGS),
        },
{
    if let Ok((payload, _)) = payload_at(b, expert_mode) {
        if payload.kind == TransactionPayloadId::TokenTransfer {
            lemma_token_transfer_prefix(b.skip(1));
        }
    }
}

/// What follows a transfer has no influence on how it is read.
#[verifier::spinoff_prover]
pub proof fn transfer_ignores_what_follows(b: Seq<u8>, tail: Seq<u8>, expert_mode: bool)
    requires
        payload_at(b, expert_mode) matches Ok((payload, _)) && payload.kind
            == TransactionPayloadId::TokenTransfer,
    ensures
        payload_at(b, expert_mode) matches Ok((payload, left)) && payload_at(b + tail, expert_mode)
            == Ok::<(Payload, Seq<u8>), ParserError>((payload, left + tail)),
{
    let body = b.skip(1);
    let longer = (b + tail).skip(1);
    assert(longer =~= body + tail);
    let n = token_transfer_len(body)->Ok_0 as int;
    lemma_token_transfer_prefix(body);
    let at = address_len() as int;
    if body[0] == TokenTranferPrincipal::Contract.tag() {
        assert(longer.skip(1).skip(at)[0] == body.skip(1).skip(at)[0]);
    }
    assert(longer.take(n) =~= body.take(n));
    assert(longer.skip(n) =~= body.skip(n) + tail);
}

/// A transfer that is cut short is refused, and the error says that the input
/// ended early.
#[verifier::spinoff_prover]
pub proof fn short_transfer_is_refused(b: Seq<u8>, len: nat, expert_mode: bool)
    requires
        is_token_transfer(b),
        len < b.len(),
    ensures
        payload_at(seq![0u8] + b.take(len as int), expert_mode) == Err::<
            (Payload, Seq<u8>),
            ParserError,
        >(ParserError::parser_unexpected_buffer_end),
{
    let short = b.take(len as int);
    assert((seq![0u8] + short).skip(1) =~= short);
    let at = address_len() as int;
    if len > 0 && b[0] == TokenTranferPrincipal::Contract.tag() {
        if len > 1 + at {
            assert(short.skip(1).skip(at)[0] == b.skip(1).skip(at)[0]);
        }
    }
}

/// Expert mode takes everything that is taken without it, and takes it the same
/// way. What it takes beyond that are calls with too many arguments.
pub proof fn expert_mode_only_lifts_the_limit(b: Seq<u8>)
    ensures
        payload_at(b, false) is Ok ==> payload_at(b, true) == payload_at(b, false),
        payload_at(b, false) != payload_at(b, true) ==> {
            &&& payload_at(b, false) == Err::<(Payload, Seq<u8>), ParserError>(
                ParserError::parser_invalid_transaction_payload,
            )
            &&& payload_at(b, true) matches Ok((payload, _))
            &&& payload.kind == TransactionPayloadId::ContractCall
            &&& args_count(call_args(payload.bytes)) > MAX_NUM_ARGS
        },
{
}

/// The bytes that announce the kinds, and what any other byte is answered.
pub proof fn tags_are_these(v: u8)
    ensures
        TransactionPayloadId::TokenTransfer.tag() == 0,
        TransactionPayloadId::SmartContract.tag() == 1,
        TransactionPayloadId::ContractCall.tag() == 2,
        TokenTranferPrincipal::Standard.tag() == 5,
        TokenTranferPrincipal::Contract.tag() == 6,
        v > 2 ==> TransactionPayloadId::of_tag(v) == Err::<TransactionPayloadId, ParserError>(
            ParserError::parser_invalid_transaction_payload,
        ),
        v < 5 || v > 6 ==> TokenTranferPrincipal::of_tag(v) == Err::<
            TokenTranferPrincipal,
            ParserError,
        >(ParserError::parser_invalid_token_transfer_principal),
{
}

/// No two kinds are announced by the same byte.
pub proof fn tags_are_distinct(
    a: TransactionPayloadId,
    b: TransactionPayloadId,
    c: TokenTranferPrincipal,
    d: TokenTranferPrincipal,
)
    ensures
        a.tag() == b.tag() ==> a == b,
        c.tag() == d.tag() ==> c == d,
{
}

/// The byte that announces a kind reads back as that kind, and every kind that is
/// read is announced by the byte that it was read from.
pub proof fn tags_read_back(a: TransactionPayloadId, c: TokenTranferPrincipal, v: u8)
    ensures
        TransactionPayloadId::of_tag(a.tag()) == Ok::<TransactionPayloadId, ParserError>(a),
        TokenTranferPrincipal::of_tag(c.tag()) == Ok::<TokenTranferPrincipal, ParserError>(c),
        TransactionPayloadId::of_tag(v) matches Ok(kind) ==> kind.tag() == v,
        TokenTranferPrincipal::of_tag(v) matches Ok(kind) ==> kind.tag() == v,
{
}

/// Whatever its number, a display item is there, and the numbers start over
/// behind the last one.
pub proof fn items_are_cyclic(payload: Payload, idx: u8)
    ensures
        payload_item(payload, idx) is Some,
        payload_item(payload, idx) == payload_item(
            payload,
            (idx % item_count(payload.kind)) as u8,
        ),
{
}

/// The first `count` pages of a text, one behind the other.
pub open spec fn pages(text: Seq<u8>, room: nat, count: nat) -> Seq<u8>
    decreases count,
{
    if count == 0 {
        Seq::empty()
    } else {
        pages(text, room, (count - 1) as nat) + page_text(text, room, (count - 1) as nat)
    }
}

/// The first pages show the front of the text.
proof fn lemma_pages_prefix(text: Seq<u8>, room: nat, count: nat)
    requires
        room > 0,
    ensures
        pages(text, room, count) == if count * room < text.len() {
            text.take((count * room) as int)
        } else {
            text
        },
    decreases count,
{
    if count == 0 {
        assert(count * room == 0) by (nonlinear_arith)
            requires
                count == 0,
        ;
        assert(text.take(0) =~= Seq::<u8>::empty());
        assert(pages(text, room, 0) =~= Seq::<u8>::empty());
        if text.len() == 0 {
            assert(text =~= Seq::<u8>::empty());
        }
    } else {
        let before = (count - 1) as nat;
        lemma_pages_prefix(text, room, before);
        assert(count * room == before * room + room) by (nonlinear_arith)
            requires
                count == before + 1,
        ;
        if count * room < text.len() {
            assert(pages(text, room, count) =~= text.take((count * room) as int));
        } else {
            assert(pages(text, room, count) =~= text);
        }
    }
}

/// The pages of a text show all of it, in order: put together they make up the
/// text again.
pub proof fn pages_make_up_the_text(text: Seq<u8>, room: nat)
    requires
        room > 0,
    ensures
        pages(text, room, page_count(text.len(), room)) == text,
{
    let count = page_count(text.len(), room);
    lemma_page_start(text.len(), room, count);
    lemma_pages_prefix(text, room, count);
}

/// Of a text, the pages that are counted show something, and others show nothing.
pub proof fn counted_pages_show_something(text: Seq<u8>, room: nat, page: nat)
    requires
        room > 0,
    ensures
        page < page_count(text.len(), room) <==> page_text(text, room, page).len() > 0,
        page_text(text, room, page).len() <= room,
{
    lemma_page_start(text.len(), room, page);
}

/// The number of pages, or the error, is the same whichever page is asked for,
/// and so is the label.
pub proof fn page_does_not_change_the_answer(
    item: Item,
    key: Seq<u8>,
    value: Seq<u8>,
    page: u8,
    other: u8,
)
    ensures
        shown(item, key, value, page).result == shown(item, key, value, other).result,
        shown(item, key, value, page).key == shown(item, key, value, other).key,
{
}

/// The lines keep their length, and a value line that shows something ends in a
/// zero.
pub proof fn lines_keep_their_shape(item: Item, key: Seq<u8>, value: Seq<u8>, page: u8)
    ensures
        shown(item, key, value, page).key.len() == key.len(),
        shown(item, key, value, page).value.len() == value.len(),
        shown(item, key, value, page).result is Ok ==> shown(item, key, value, page).value.last()
            == 0,
{
    if shown(item, key, value, page).result is Ok {
        counted_pages_show_something(item.text->Ok_0, (value.len() - 1) as nat, page as nat);
    }
}

/// A refused request leaves the value line as it was.
pub proof fn refusal_keeps_the_value_line(item: Item, key: Seq<u8>, value: Seq<u8>, page: u8)
    ensures
        shown(item, key, value, page).result is Err ==> shown(item, key, value, page).value
            == value,
{
}

/// A number that is written in decimal reads back, and has no zeros in front.
pub proof fn decimal_round_trip(n: nat)
    ensures
        decimal_value(decimal(n)) == n,
        forall|i: int| 0 <= i < decimal(n).len() ==> 48 <= #[trigger] decimal(n)[i] <= 57,
        decimal(n).len() > 0,
        decimal(n)[0] == 48 ==> n == 0 && decimal(n).len() == 1,
    decreases n,
{
    reveal_with_fuel(decimal_value, 2);
    if n >= 10 {
        decimal_round_trip(n / 10);
        assert(decimal(n).drop_last() =~= decimal(n / 10));
    } else {
        assert(decimal(n).drop_last() =~= Seq::<u8>::empty());
    }
}

/// The characters of base 32: the digits, and the capital letters but for I, L,
/// O and U.
pub open spec fn is_c32_char(c: u8) -> bool {
    ||| 48 <= c <= 57
    ||| 65 <= c <= 90 && c != 73 && c != 76 && c != 79 && c != 85
}

/// The digit that a character of base 32 stands for: as many as there are smaller
/// characters of base 32.
pub open spec fn c32_digit(c: u8) -> nat {
    if c <= 57 {
        (c - 48) as nat
    } else if c <= 72 {
        (c - 55) as nat
    } else if c <= 75 {
        (c - 56) as nat
    } else if c <= 78 {
        (c - 57) as nat
    } else if c <= 84 {
        (c - 58) as nat
    } else {
        (c - 59) as nat
    }
}

/// The number that a text in base 32 stands for.
pub open spec fn c32_value(text: Seq<u8>) -> nat
    decreases text.len(),
{
    if text.len() == 0 {
        0
    } else {
        32 * c32_value(text.drop_last()) + c32_digit(text.last())
    }
}

/// The characters stand in ascending order.
proof fn lemma_next_char_is_greater(d: nat)
    requires
        d < 31,
    ensures
        c32_char(d) < c32_char(d + 1),
{
    reveal_strlit("0123456789ABCDEFGHJKMNPQRSTVWXYZ");
}

/// The character of a digit is one of base 32, and stands for that digit.
pub proof fn c32_digits_read_back(d: nat)
    requires
        d < 32,
    ensures
        is_c32_char(c32_char(d)),
        c32_digit(c32_char(d)) == d,
{
    reveal_strlit("0123456789ABCDEFGHJKMNPQRSTVWXYZ");
}

/// A greater digit has a greater character.
proof fn lemma_chars_ascend(d: nat, e: nat)
    requires
        d < e < 32,
    ensures
        c32_char(d) < c32_char(e),
    decreases e,
{
    lemma_next_char_is_greater((e - 1) as nat);
    if d < e - 1 {
        lemma_chars_ascend(d, (e - 1) as nat);
    }
}

/// Every digit of base 32 has a character of its own.
pub proof fn c32_characters_are_distinct(d: nat, e: nat)
    requires
        d < 32,
        e < 32,
    ensures
        c32_char(d) == c32_char(e) ==> d == e,
        c32_digit(c32_char(d)) == d,
{
    if d < e {
        lemma_chars_ascend(d, e);
    } else if e < d {
        lemma_chars_ascend(e, d);
    }
    c32_digits_read_back(d);
}

/// Digits of base 32 read back as the number that they were made from.
proof fn lemma_digits_value(n: nat)
    ensures
        c32_value(c32_digits(n)) == n,
    decreases n,
{
    if n > 0 {
        lemma_digits_value(n / 32);
        c32_characters_are_distinct(n % 32, 0);
        assert(c32_digits(n).drop_last() =~= c32_digits(n / 32));
    }
}

/// Zeros in front do not change the number.
proof fn lemma_zeros_in_front(zeros: nat, text: Seq<u8>)
    ensures
        c32_value(Seq::new(zeros, |i: int| c32_char(0)) + text) == c32_value(text),
    decreases zeros + text.len(),
{
    let front = Seq::new(zeros, |i: int| c32_char(0));
    let whole = front + text;
    if text.len() > 0 {
        lemma_zeros_in_front(zeros, text.drop_last());
        assert(whole.drop_last() =~= front + text.drop_last());
    } else if zeros > 0 {
        c32_characters_are_distinct(0, 0);
        let fewer = (zeros - 1) as nat;
        lemma_zeros_in_front(fewer, text);
        assert(whole.drop_last() =~= Seq::new(fewer, |i: int| c32_char(0)) + text);
    } else {
        assert(whole =~= text);
    }
}

/// What is encoded in base 32 reads back as the number that it stands for.
pub proof fn c32_round_trip(data: Seq<u8>)
    ensures
        c32_value(c32_encoding(data)) == be_value(data),
{
    lemma_digits_value(be_value(data));
    lemma_zeros_in_front(leading_zeros(data), c32_digits(be_value(data)));
}

/// No two addresses look alike: the text tells the version, the hash and the
/// checksum.
#[verifier::spinoff_prover]
pub proof fn addresses_are_distinct(
    version: u8,
    hash: Seq<u8>,
    checksum: Seq<u8>,
    other_version: u8,
    other_hash: Seq<u8>,
    other_checksum: Seq<u8>,
)
    requires
        version < 32,
        other_version < 32,
        hash.len() == other_hash.len(),
        checksum.len() == other_checksum.len(),
        c32_text(version, hash, checksum) == c32_text(other_version, other_hash, other_checksum),
    ensures
        version == other_version,
        hash == other_hash,
        checksum == other_checksum,
{
    let text = c32_text(version, hash, checksum);
    let data = hash + checksum;
    let other = other_hash + other_checksum;
    assert(text[1] == c32_char(version as nat));
    assert(text[1] == c32_char(other_version as nat));
    c32_characters_are_distinct(version as nat, other_version as nat);
    assert(text.skip(2) =~= c32_encoding(data));
    assert(text.skip(2) =~= c32_encoding(other));
    c32_round_trip(data);
    c32_round_trip(other);
    lemma_be_value_injective(data, other);
    assert(hash =~= data.take(hash.len() as int));
    assert(other_hash =~= other.take(hash.len() as int));
    assert(checksum =~= data.skip(hash.len() as int));
    assert(other_checksum =~= other.skip(hash.len() as int));
}

/// A number's first byte counts the most: it stands in front of all that the other
/// bytes can hold.
pub proof fn numbers_are_big_endian(first: u8, rest: Seq<u8>)
    ensures
        be_value(seq![first] + rest) == first * pow256(rest.len()) + be_value(rest),
    decreases rest.len(),
{
    let whole = seq![first] + rest;
    if rest.len() == 0 {
        assert(whole.drop_last() =~= Seq::<u8>::empty());
        assert(be_value(whole.drop_last()) == 0);
        assert(pow256(0) == 1);
    } else {
        numbers_are_big_endian(first, rest.drop_last());
        assert(whole.drop_last() =~= seq![first] + rest.drop_last());
        let p = pow256((rest.len() - 1) as nat);
        assert(256 * (first * p) == first * (256 * p)) by (nonlinear_arith);
    }
}

/// Four bytes, and eight, as numbers.
pub proof fn numbers_of_four_and_eight_bytes(four: Seq<u8>, eight: Seq<u8>)
    requires
        four.len() == 4,
        eight.len() == 8,
    ensures
        be_value(four) == four[0] * 0x100_0000 + four[1] * 0x1_0000 + four[2] * 0x100 + four[3],
        be_value(eight) == eight[0] * 0x100_0000_0000_0000 + eight[1] * 0x1_0000_0000_0000
            + eight[2] * 0x100_0000_0000 + eight[3] * 0x1_0000_0000 + eight[4] * 0x100_0000
            + eight[5] * 0x1_0000 + eight[6] * 0x100 + eight[7],
{
    reveal_with_fuel(be_value, 9);
    let f = four;
    let e = eight;
    assert(f.drop_last().drop_last().drop_last().drop_last() =~= Seq::<u8>::empty());
    assert(e.drop_last().drop_last().drop_last().drop_last().drop_last().drop_last().drop_last()
        .drop_last() =~= Seq::<u8>::empty());
}

/// `text` starts with `z` copies of `c`, and not with more.
pub open spec fn starts_with(text: Seq<u8>, c: u8, z: nat) -> bool {
    &&& z <= text.len()
    &&& forall|i: int| 0 <= i < z ==> #[trigger] text[i] == c
    &&& z < text.len() ==> text[z as int] != c
}

/// `text` spells `data` in base 32: it is made of characters of base 32, stands
/// for the same number, and has as many zeros in front as `data` has zero bytes.
pub open spec fn spells(text: Seq<u8>, data: Seq<u8>) -> bool {
    &&& forall|i: int| 0 <= i < text.len() ==> is_c32_char(#[trigger] text[i])
    &&& c32_value(text) == be_value(data)
    &&& forall|z: nat| #[trigger] starts_with(data, 0, z) ==> starts_with(text, 48, z)
}

/// `text` is the address of `hash` in c32check: the letter S, the character of the
/// version, and in base 32 the hash with a checksum behind it, which are the
/// first four bytes of the twofold SHA-256 digest of the version and the hash.
pub open spec fn is_address_of(text: Seq<u8>, version: u8, hash: Seq<u8>) -> bool {
    &&& text.len() >= 2
    &&& text[0] == 83
    &&& is_c32_char(text[1])
    &&& c32_digit(text[1]) == version
    &&& spells(text.skip(2), hash + sha256_digest(sha256_digest(seq![version] + hash)).take(4))
}

/// `digits` is `n` in decimal: digits that stand for `n`, without zeros in front.
pub open spec fn is_decimal_of(digits: Seq<u8>, n: nat) -> bool {
    &&& digits.len() > 0
    &&& forall|i: int| 0 <= i < digits.len() ==> 48 <= #[trigger] digits[i] <= 57
    &&& decimal_value(digits) == n
    &&& digits[0] == 48 ==> digits.len() == 1
}

/// A sequence starts with as many zero bytes as are counted.
proof fn lemma_zeros_counted(data: Seq<u8>, z: nat)
    ensures
        starts_with(data, 0, z) <==> z == leading_zeros(data),
    decreases data.len(),
{
    if data.len() > 0 && data[0] == 0 {
        let rest = data.drop_first();
        if z > 0 {
            lemma_zeros_counted(rest, (z - 1) as nat);
            if starts_with(rest, 0, (z - 1) as nat) {
                assert forall|i: int| 0 <= i < z implies #[trigger] data[i] == 0 by {
                    if i > 0 {
                        assert(rest[i - 1] == 0);
                    }
                }
            }
            if starts_with(data, 0, z) {
                assert forall|i: int| 0 <= i < z - 1 implies #[trigger] rest[i] == 0 by {
                    assert(data[i + 1] == 0);
                }
            }
        }
    } else if data.len() > 0 && z > 0 && starts_with(data, 0, z) {
        assert(data[0] == 0);
    }
}

/// A number whose first byte is not zero is not zero.
proof fn lemma_first_byte_counts(data: Seq<u8>)
    requires
        data.len() > 0,
        data[0] != 0,
    ensures
        be_value(data) > 0,
    decreases data.len(),
{
    if data.len() > 1 {
        lemma_first_byte_counts(data.drop_last());
    }
}

/// Digits of base 32 are characters of base 32, and the first one is not zero.
proof fn lemma_digit_chars(n: nat)
    ensures
        forall|i: int| 0 <= i < c32_digits(n).len() ==> is_c32_char(#[trigger] c32_digits(n)[i]),
        n > 0 ==> c32_digits(n).len() > 0 && c32_digits(n)[0] != 48,
    decreases n,
{
    if n > 0 {
        lemma_digit_chars(n / 32);
        c32_digits_read_back(n % 32);
        c32_digits_read_back(0);
        if n / 32 == 0 {
            assert(c32_digits(n / 32).len() == 0);
        }
    }
}

/// What is encoded in base 32 spells the data.
#[verifier::spinoff_prover]
pub proof fn encodings_spell_the_data(data: Seq<u8>)
    ensures
        spells(c32_encoding(data), data),
{
    let text = c32_encoding(data);
    let zeros = leading_zeros(data);
    let n = be_value(data);
    c32_round_trip(data);
    c32_digits_read_back(0);
    lemma_digit_chars(n);
    lemma_skip_leading_zeros(data);
    lemma_zeros_counted(data, zeros);
    reveal_strlit("0123456789ABCDEFGHJKMNPQRSTVWXYZ");
    assert(c32_char(0) == 48);
    let rest = data.skip(zeros as int);
    if zeros < data.len() {
        assert(rest[0] == data[zeros as int]);
        lemma_first_byte_counts(rest);
        assert(text[zeros as int] == c32_digits(n)[0]);
    } else {
        assert(rest =~= Seq::<u8>::empty());
        assert(n == 0);
    }
    assert forall|i: int| 0 <= i < text.len() implies is_c32_char(#[trigger] text[i]) by {
        if i >= zeros {
            assert(text[i] == c32_digits(n)[i - zeros]);
        }
    }
    assert(starts_with(text, 48, zeros));
    assert forall|z: nat| #[trigger] starts_with(data, 0, z) implies starts_with(text, 48, z) by {
        lemma_zeros_counted(data, z);
    }
}

/// An address as text is what c32check says it is.
pub proof fn addresses_are_c32check(version: u8, hash: Seq<u8>)
    requires
        version < 32,
    ensures
        is_address_of(c32_address_text(version, hash), version, hash),
{
    let checksum = sha256_digest(sha256_digest(seq![version] + hash)).take(4);
    let text = c32_address_text(version, hash);
    c32_digits_read_back(version as nat);
    encodings_spell_the_data(hash + checksum);
    assert(text.skip(2) =~= c32_encoding(hash + checksum));
}

/// The display items of a transfer that is written out: its amount in decimal, the
/// address of the recipient and the message, one behind the other, over and over.
#[verifier::spinoff_prover]
pub proof fn transfer_items(to: Recipient, amount: u64, memo: Seq<u8>, idx: u8)
    requires
        to.valid(),
        memo.len() == 34,
    ensures
        ({
            let bytes = encode_transfer(to, amount, memo);
            let payload = Payload { kind: TransactionPayloadId::TokenTransfer, bytes };
            &&& payload_item(payload, idx) matches Some(item)
            &&& idx % 3 == 0 ==> {
                &&& item.label == "Amount uSTX"@
                &&& item.text matches Ok(t)
                &&& is_decimal_of(t, amount as nat)
            }
            &&& idx % 3 == 1 ==> {
                &&& item.label == "To"@
                &&& match item.text {
                    Ok(t) => to.version < 32 && is_address_of(t, to.version, to.hash) && t
                        == c32_address_text(to.version, to.hash),
                    Err(e) => to.version >= 32 && e == ParserError::parser_invalid_address_version,
                }
            }
            &&& idx % 3 == 2 ==> {
                &&& item.label == "Memo"@
                &&& item.text == Ok::<Seq<u8>, ParserError>(memo)
            }
            &&& idx < 3 ==> token_item(bytes, idx) == Some(item)
        }),
{
    transfer_round_trip(to, amount, memo, Seq::empty(), false);
    decimal_round_trip(amount as nat);
    if to.version < 32 {
        addresses_are_c32check(to.version, to.hash);
    }
}

/// The display items of a call, by what its fields are.
#[verifier::spinoff_prover]
proof fn lemma_call_items(bytes: Seq<u8>, version: u8, hash: Seq<u8>, idx: u8)
    requires
        call_address(bytes) == if version < 32 {
            Ok(c32_address_text(version, hash))
        } else {
            Err(ParserError::parser_invalid_address_version)
        },
    ensures
        ({
            let payload = Payload { kind: TransactionPayloadId::ContractCall, bytes };
            &&& payload_item(payload, idx) matches Some(item)
            &&& idx % 3 == 0 ==> {
                &&& item.label == "Contract address"@
                &&& match item.text {
                    Ok(t) => version < 32 && is_address_of(t, version, hash) && t
                        == c32_address_text(version, hash),
                    Err(e) => version >= 32 && e == ParserError::parser_invalid_address_version,
                }
            }
            &&& idx % 3 == 1 ==> item.label == "Contract name"@ && item.text == Ok::<
                Seq<u8>,
                ParserError,
            >(call_contract_name(bytes))
            &&& idx % 3 == 2 ==> item.label == "Function name"@ && item.text == Ok::<
                Seq<u8>,
                ParserError,
            >(call_function_name(bytes))
            &&& idx < 3 ==> call_item(bytes, idx) == Some(item)
        }),
{
    if version < 32 {
        addresses_are_c32check(version, hash);
    }
}

/// The display items of a call that is written out: the address of the contract,
/// its name and the name of the function, one behind the other, over and over.
#[verifier::spinoff_prover]
pub proof fn call_items(
    version: u8,
    hash: Seq<u8>,
    contract: Seq<u8>,
    function: Seq<u8>,
    count: u32,
    values: Seq<u8>,
    idx: u8,
)
    requires
        hash.len() == 20,
        contract.len() <= 128,
        function.len() <= 128,
    ensures
        ({
            let bytes = encode_call(version, hash, contract, function, count, values);
            let payload = Payload { kind: TransactionPayloadId::ContractCall, bytes };
            &&& payload_item(payload, idx) matches Some(item)
            &&& idx % 3 == 0 ==> {
                &&& item.label == "Contract address"@
                &&& match item.text {
                    Ok(t) => version < 32 && is_address_of(t, version, hash) && t
                        == c32_address_text(version, hash),
                    Err(e) => version >= 32 && e == ParserError::parser_invalid_address_version,
                }
            }
            &&& idx % 3 == 1 ==> {
                &&& item.label == "Contract name"@
                &&& item.text == Ok::<Seq<u8>, ParserError>(contract)
            }
            &&& idx % 3 == 2 ==> {
                &&& item.label == "Function name"@
                &&& item.text == Ok::<Seq<u8>, ParserError>(function)
            }
            &&& idx < 3 ==> call_item(bytes, idx) == Some(item)
        }),
{
    let bytes = encode_call(version, hash, contract, function, count, values);
    call_round_trip(version, hash, contract, function, count, values, true);
    lemma_call_items(bytes, version, hash, idx);
}

/// The one display item of a publication: the name that stands in front of the
/// body.
pub proof fn publication_items(name: Seq<u8>, body: Seq<u8>, idx: u8)
    requires
        name.len() <= 128,
    ensures
        ({
            let bytes = encode_name(name) + body;
            let payload = Payload { kind: TransactionPayloadId::SmartContract, bytes };
            &&& payload_item(payload, idx) matches Some(item)
            &&& item.label == "Contract Name"@
            &&& item.text == Ok::<Seq<u8>, ParserError>(name)
            &&& smart_contract_item(bytes, 0) == Some(item)
        }),
{
    publication_round_trip(name, body, false);
}

/// Where no name can be read, a publication has an item that says so.
pub proof fn nameless_publication_items(bytes: Seq<u8>, idx: u8)
    requires
        bytes.len() == 0 || bytes[0] > 128 || bytes.len() < 1 + bytes[0],
    ensures
        ({
            let payload = Payload { kind: TransactionPayloadId::SmartContract, bytes };
            &&& payload_item(payload, idx) matches Some(item)
            &&& item.label == "Contract Name"@
            &&& item.text == Err::<Seq<u8>, ParserError>(ParserError::parser_invalid_contract_name)
        }),
{
}

/// `count` pages with room for `room` characters each hold `len` characters, and
/// fewer pages do not.
pub open spec fn counts_pages(count: nat, len: nat, room: nat) -> bool {
    &&& len <= count * room
    &&& count > 0 ==> (count - 1) * room < len
}

/// `line` shows page `page` of `text`: character by character the part of the text
/// that starts behind `page` full pages, then zeros. The last byte is always zero.
pub open spec fn line_shows(line: Seq<u8>, text: Seq<u8>, page: nat) -> bool {
    let room = line.len() - 1;
    forall|k: int|
        0 <= k < line.len() ==> #[trigger] line[k] == if k < room && page * room + k < text.len() {
            text[page * room + k]
        } else {
            0
        }
}

/// `after` is `before` with `label` over its front.
pub open spec fn labelled(before: Seq<u8>, label: Seq<u8>, after: Seq<u8>) -> bool {
    &&& label.len() <= before.len() == after.len()
    &&& forall|i: int|
        0 <= i < after.len() ==> #[trigger] after[i] == if i < label.len() {
            label[i]
        } else {
            before[i]
        }
}

/// Writing over the front changes the front and nothing else.
pub proof fn overwriting_keeps_the_rest(buffer: Seq<u8>, text: Seq<u8>)
    requires
        text.len() <= buffer.len(),
    ensures
        labelled(buffer, text, overwrite(buffer, text)),
{
}

/// Asking for a page gives the line that shows that page and the number of pages,
/// unless the line is too short or there are too many pages to count.
#[verifier::spinoff_prover]
pub proof fn lines_show_their_page(text: Seq<u8>, len: nat, page: u8)
    ensures
        match paged(text, len, page) {
            Ok((count, line)) => {
                &&& len >= 2
                &&& line.len() == len
                &&& counts_pages(count as nat, text.len(), (len - 1) as nat)
                &&& line_shows(line, text, page as nat)
            },
            Err(e) => if len < 2 {
                e == ParserError::parser_unexpected_buffer_end
            } else {
                text.len() > 255 * (len - 1) && e == ParserError::parser_display_page_out_of_range
            },
        },
{
    if len >= 2 {
        let room = (len - 1) as nat;
        let count = page_count(text.len(), room);
        lemma_page_start(text.len(), room, 255);
        lemma_page_start(text.len(), room, count);
        if count > 0 {
            lemma_page_start(text.len(), room, (count - 1) as nat);
        }
        counted_pages_show_something(text, room, page as nat);
        if let Ok((_, line)) = paged(text, len, page) {
            let part = page_text(text, room, page as nat);
            let start = page as nat * room;
            assert forall|k: int| 0 <= k < line.len() implies #[trigger] line[k] == if k < room
                && page as nat * room + k < text.len() {
                text[page as nat * room + k]
            } else {
                0
            } by {
                if k < part.len() {
                    assert(part[k] == text[start + k]);
                }
            }
        }
    }
}

/// The screen after a request for page `page` of an item that does not have too
/// many pages to count: the label over the front of the key line, then the page
/// and the number of pages. Where something fails, the lines that were not
/// reached stay as they were.
pub open spec fn screen_shows(
    label: Seq<u8>,
    text: Result<Seq<u8>, ParserError>,
    page: u8,
    key: Seq<u8>,
    value: Seq<u8>,
    result: Result<u8, ParserError>,
    new_key: Seq<u8>,
    new_value: Seq<u8>,
) -> bool {
    if key.len() < label.len() {
        &&& result == Err::<u8, ParserError>(ParserError::parser_unexpected_buffer_end)
        &&& new_key == key
        &&& new_value == value
    } else {
        &&& labelled(key, label, new_key)
        &&& match text {
            Err(e) => result == Err::<u8, ParserError>(e) && new_value == value,
            Ok(t) => if value.len() < 2 {
                &&& result == Err::<u8, ParserError>(ParserError::parser_unexpected_buffer_end)
                &&& new_value == value
            } else {
                &&& result matches Ok(count)
                &&& counts_pages(count as nat, t.len(), (value.len() - 1) as nat)
                &&& new_value.len() == value.len()
                &&& line_shows(new_value, t, page as nat)
            },
        }
    }
}

/// What is shown of an item is its label and the page that was asked for, unless
/// there are too many pages to count.
#[verifier::spinoff_prover]
pub proof fn screens_show_the_item(item: Item, key: Seq<u8>, value: Seq<u8>, page: u8)
    requires
        shown(item, key, value, page).result != Err::<u8, ParserError>(
            ParserError::parser_display_page_out_of_range,
        ),
    ensures
        ({
            let s = shown(item, key, value, page);
            screen_shows(
                encode_utf8(item.label),
                item.text,
                page,
                key,
                value,
                s.result,
                s.key,
                s.value,
            )
        }),
{
    if key.len() >= encode_utf8(item.label).len() {
        overwriting_keeps_the_rest(key, encode_utf8(item.label));
    }
    if let Ok(t) = item.text {
        lines_show_their_page(t, value.len(), page);
    }
}

/// Bytes that were read as a number read back from it.
proof fn lemma_be_value_bytes(s: Seq<u8>)
    ensures
        be_bytes(be_value(s), s.len()) == s,
{
    lemma_be_value_bound(s);
    lemma_be_bytes_value(be_value(s), s.len());
    lemma_be_value_injective(be_bytes(be_value(s), s.len()), s);
}

/// The recipient that stands at the front of a transfer.
spec fn recipient_at(body: Seq<u8>) -> Recipient {
    Recipient {
        version: body[1],
        hash: body.subrange(2, 22),
        contract: if body[0] == 6 {
            Some(body.subrange(23, 23 + body[22]))
        } else {
            None
        },
    }
}

/// A recipient that was read is written out as it stood.
#[verifier::spinoff_prover]
proof fn lemma_recipient_at(body: Seq<u8>)
    requires
        recipient_len(body) is Ok,
    ensures
        recipient_at(body).valid(),
        recipient_len(body)->Ok_0 <= body.len(),
        recipient_at(body).encode() == body.take(recipient_len(body)->Ok_0 as int),
{
    let n = recipient_len(body)->Ok_0 as int;
    let to = recipient_at(body);
    if body[0] == 6 {
        let name = to.contract->Some_0;
        assert(body.skip(1).skip(21)[0] == body[22]);
        assert(n == 23 + body[22]);
        assert(encode_name(name) =~= body.subrange(22, n));
        assert(to.encode() =~= body.take(n));
    } else {
        assert(to.encode() =~= body.take(n));
    }
}

/// Nothing is read as a transfer but what is one when it is written out.
#[verifier::spinoff_prover]
pub proof fn every_transfer_is_written_out(b: Seq<u8>, expert_mode: bool)
    requires
        payload_at(b, expert_mode) matches Ok((payload, _)) && payload.kind
            == TransactionPayloadId::TokenTransfer,
    ensures
        exists|to: Recipient, amount: u64, memo: Seq<u8>, tail: Seq<u8>|
            to.valid() && memo.len() == 34 && b == #[trigger] (seq![0u8] + encode_transfer(
                to,
                amount,
                memo,
            ) + tail),
{
    let body = b.skip(1);
    let n = recipient_len(body)->Ok_0 as int;
    let to = recipient_at(body);
    lemma_recipient_at(body);
    let coded = body.subrange(n, n + 8);
    lemma_be_value_bound(coded);
    assert(pow256(8) == 0x1_0000_0000_0000_0000) by {
        reveal_with_fuel(pow256, 9);
    }
    let amount = be_value(coded) as u64;
    let memo = body.subrange(n + 8, n + 42);
    let tail = body.skip(n + 42);
    lemma_be_value_bytes(coded);
    let front = body.take(n);
    assert(encode_transfer(to, amount, memo) == front + coded + memo);
    assert(front + coded + memo =~= body.take(n + 42));
    assert(body.take(n + 42) + tail =~= body);
    assert(b =~= seq![0u8] + body);
    assert(seq![0u8] + encode_transfer(to, amount, memo) + tail =~= seq![0u8] + body);
}

/// Nothing is read as a call but what is one when it is written out.
#[verifier::spinoff_prover]
pub proof fn every_call_is_written_out(b: Seq<u8>, expert_mode: bool)
    requires
        payload_at(b, expert_mode) matches Ok((payload, _)) && payload.kind
            == TransactionPayloadId::ContractCall,
    ensures
        exists|
            version: u8,
            hash: Seq<u8>,
            contract: Seq<u8>,
            function: Seq<u8>,
            count: u32,
            values: Seq<u8>,
        |
            hash.len() == 20 && contract.len() <= 128 && function.len() <= 128 && b == seq![2u8]
                + #[trigger] encode_call(version, hash, contract, function, count, values),
{
    let body = b.skip(1);
    let names = call_names(body);
    let args = call_args(body);
    let contract = call_contract_name(body);
    let function = call_function_name(body);
    let coded = args.take(4);
    lemma_be_value_bound(coded);
    assert(be_value(coded) <= u32::MAX) by {
        reveal_with_fuel(pow256, 5);
    }
    let count = be_value(coded) as u32;
    let values = args.skip(4);
    lemma_be_value_bytes(coded);
    assert(be_bytes(count as nat, 4) + values =~= args);
    let behind = after_name(names);
    assert(encode_name(function) + args =~= behind);
    assert(encode_name(contract) + behind =~= names);
    let version = body[0];
    let hash = body.subrange(1, 21);
    assert(seq![version] + hash + names =~= body);
    assert(encode_call(version, hash, contract, function, count, values) == body);
    assert(b =~= seq![2u8] + body);
}

} // verus!
