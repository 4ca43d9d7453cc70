//! What the parts do that payloads are read with, answered from and shown by.

use crate::behaviour::has_no_name;
use crate::c32::{
    c32_address, c32_address_with_checksum, c32_encode, c32_encoding, c32_text, lemma_encoding_len,
};
use crate::contract_call::{args_count, Arguments, TransactionContractCall};
use crate::error::ParserError;
use crate::input::be_bytes;
use crate::laws::{
    addresses_are_c32check, c32_digit, c32_digits_read_back, call_items, call_round_trip,
    counts_pages, decimal_round_trip, encode_call, encode_transfer, encodings_spell_the_data,
    is_address_of, is_c32_char, is_decimal_of, labelled, lemma_args, line_shows,
    lines_show_their_page,
    numbers_of_four_and_eight_bytes, overwriting_keeps_the_rest, spells, transfer_items,
    transfer_round_trip, Recipient,
};
use crate::parser_common::{
    after_name, encode_name, lemma_encode_name, u8_with_limits, ClarityName, ContractName,
    PrincipalData, StacksAddress,
};
use crate::payload::{payload_at, TransactionPayload, TransactionPayloadId};
use crate::smart_contract::TransactionSmartContract;
use crate::text::{AddressText, AmountText};
use crate::token_transfer::{StxTokenTransfer, TokenTranferPrincipal};
use crate::zxformat::{decimal, page_string, u64_to_str, write_bytes, write_str};
use vstd::prelude::*;
use vstd::utf8::encode_utf8;

verus! {

/// Why the bytes of a payload are refused, by what stands at which place, or
/// `None` where they are not.
pub open spec fn refusal(b: Seq<u8>, expert_mode: bool) -> Option<ParserError> {
    if b.len() == 0 {
        Some(ParserError::parser_unexpected_buffer_end)
    } else if b[0] == 0 {
        transfer_refusal(b)
    } else if b[0] == 1 {
        None
    } else if b[0] == 2 {
        call_refusal(b, expert_mode)
    } else {
        Some(ParserError::parser_invalid_transaction_payload)
    }
}

/// A transfer is 65 bytes long, and longer by a name where the recipient is a
/// contract.
pub open spec fn transfer_refusal(b: Seq<u8>) -> Option<ParserError> {
    let end = Some(ParserError::parser_unexpected_buffer_end);
    if b.len() == 1 {
        end
    } else if b[1] == 5 {
        if b.len() < 65 {
            end
        } else {
            None
        }
    } else if b[1] == 6 {
        if b.len() < 24 {
            end
        } else if b[23] > 128 {
            Some(ParserError::parser_value_out_of_range)
        } else if b.len() < 66 + b[23] {
            end
        } else {
            None
        }
    } else {
        Some(ParserError::parser_invalid_token_transfer_principal)
    }
}

/// A call has two names behind 22 bytes, then at least the four bytes of a count,
/// which outside of expert mode is at most ten.
pub open spec fn call_refusal(b: Seq<u8>, expert_mode: bool) -> Option<ParserError> {
    let first = b[22] as int;
    let second = b[23 + first] as int;
    let at = 24 + first + second;
    if b.len() < 22 {
        Some(ParserError::parser_unexpected_buffer_end)
    } else if b.len() < 23 || first > 128 || b.len() < 24 + first || second > 128 || b.len() < at {
        Some(ParserError::parser_unexpected_type)
    } else if b.len() < at + 4 {
        Some(ParserError::parser_unexpected_buffer_end)
    } else if !expert_mode && (b[at] > 0 || b[at + 1] > 0 || b[at + 2] > 0 || b[at + 3] > 10) {
        Some(ParserError::parser_invalid_transaction_payload)
    } else {
        None
    }
}

/// The refusal of a call.
proof fn lemma_call_refusal(b: Seq<u8>, expert_mode: bool)
    requires
        b.len() > 0,
        b[0] == 2,
    ensures
        match payload_at(b, expert_mode) {
            Ok(_) => call_refusal(b, expert_mode) is None,
            Err(e) => call_refusal(b, expert_mode) == Some(e),
        },
{
    let body = b.skip(1);
    if b.len() >= 22 {
        let names = body.skip(21);
        let first = b[22] as int;
        if b.len() >= 23 {
            assert(names[0] == b[22]);
            if first <= 128 && b.len() >= 24 + first {
                let behind = after_name(names);
                assert(behind =~= b.skip(23 + first));
                assert(behind[0] == b[23 + first]);
                let second = b[23 + first] as int;
                let at = 24 + first + second;
                if second <= 128 && b.len() >= at {
                    let args = after_name(behind);
                    assert(args =~= b.skip(at));
                    if b.len() >= at + 4 {
                        numbers_of_four_and_eight_bytes(args.take(4), seq![0u8, 0, 0, 0, 0, 0, 0, 0]);
                        assert(args.take(4)[0] == b[at]);
                        assert(args.take(4)[1] == b[at + 1]);
                        assert(args.take(4)[2] == b[at + 2]);
                        assert(args.take(4)[3] == b[at + 3]);
                    }
                }
            }
        }
    }
}

/// The refusal of a transfer.
proof fn lemma_transfer_refusal(b: Seq<u8>, expert_mode: bool)
    requires
        b.len() > 0,
        b[0] == 0,
    ensures
        match payload_at(b, expert_mode) {
            Ok(_) => transfer_refusal(b) is None,
            Err(e) => transfer_refusal(b) == Some(e),
        },
{
    let body = b.skip(1);
    if b.len() >= 24 {
        assert(body.skip(1).skip(21)[0] == b[23]);
    }
}

/// Which bytes are read as a payload, and with what error the others are refused.
pub proof fn payloads_are_refused<'a>(
    bytes: &'a [u8],
    expert_mode: bool,
    read: Result<(&'a [u8], TransactionPayload<'a>), ParserError>,
)
    requires
        call_ensures(TransactionPayload::<'a>::from_bytes, (bytes, expert_mode), read),
    ensures
        match read {
            Ok(_) => refusal(bytes@, expert_mode) is None,
            Err(e) => refusal(bytes@, expert_mode) == Some(e),
        },
{
    let b = bytes@;
    if b.len() > 0 && b[0] == 0 {
        lemma_transfer_refusal(b, expert_mode);
    } else if b.len() > 0 && b[0] == 2 {
        lemma_call_refusal(b, expert_mode);
    }
}

/// Behind the byte for its kind, each kind of payload is read as its own reader
/// reads it.
pub proof fn readers_agree<'a>(
    bytes: &'a [u8],
    body: &'a [u8],
    expert_mode: bool,
    read: Result<(&'a [u8], TransactionPayload<'a>), ParserError>,
    transfer: Result<(&'a [u8], StxTokenTransfer<'a>), ParserError>,
    publication: Result<(&'a [u8], TransactionSmartContract<'a>), ParserError>,
    call: Result<(&'a [u8], TransactionContractCall<'a>), ParserError>,
)
    requires
        bytes@.len() > 0,
        body@ == bytes@.skip(1),
        call_ensures(TransactionPayload::<'a>::from_bytes, (bytes, expert_mode), read),
        call_ensures(StxTokenTransfer::<'a>::from_bytes, (body,), transfer),
        call_ensures(TransactionSmartContract::<'a>::from_bytes, (body,), publication),
        call_ensures(TransactionContractCall::<'a>::from_bytes, (body, expert_mode), call),
    ensures
        bytes@[0] == 0 ==> match (read, transfer) {
            (Ok((rest, p)), Ok((left, t))) => rest@ == left@ && p@.bytes == t@,
            (Err(e), Err(f)) => e == f,
            _ => false,
        },
        bytes@[0] == 1 ==> match (read, publication) {
            (Ok((rest, p)), Ok((left, t))) => rest@ == left@ && p@.bytes == t@,
            _ => false,
        },
        bytes@[0] == 2 ==> match (read, call) {
            (Ok((rest, p)), Ok((left, t))) => rest@ == left@ && p@.bytes == t@,
            (Err(e), Err(f)) => e == f,
            _ => false,
        },
{
}

/// A transfer that was read on its own answers what was written.
pub proof fn transfers_on_their_own<'a>(
    to: Recipient,
    amount: u64,
    memo: Seq<u8>,
    tail: Seq<u8>,
    bytes: &'a [u8],
    rest: &'a [u8],
    transfer: StxTokenTransfer<'a>,
    found_amount: Result<u64, ParserError>,
    found_memo: &[u8],
    found_hash: &[u8],
    found_address: Result<AddressText, ParserError>,
    found_text: Result<AmountText, ParserError>,
)
    requires
        to.valid(),
        memo.len() == 34,
        bytes@ == encode_transfer(to, amount, memo) + tail,
        call_ensures(StxTokenTransfer::<'a>::from_bytes, (bytes,), Ok((rest, transfer))),
        call_ensures(StxTokenTransfer::<'a>::amount, (&transfer,), found_amount),
        call_ensures(StxTokenTransfer::<'a>::memo, (&transfer,), found_memo),
        call_ensures(StxTokenTransfer::<'a>::raw_address, (&transfer,), found_hash),
        call_ensures(StxTokenTransfer::<'a>::encoded_address, (&transfer,), found_address),
        call_ensures(StxTokenTransfer::<'a>::amount_stx, (&transfer,), found_text),
    ensures
        rest@ == tail,
        found_amount == Ok::<u64, ParserError>(amount),
        found_memo@ == memo,
        found_hash@ == to.hash,
        match found_address {
            Ok(a) => to.version < 32 && is_address_of(a@, to.version, to.hash),
            Err(e) => to.version >= 32 && e == ParserError::parser_invalid_address_version,
        },
        found_text matches Ok(t) && is_decimal_of(t@, amount as nat),
{
    let written = encode_transfer(to, amount, memo);
    transfer_round_trip(to, amount, memo, tail, false);
    assert((seq![0u8] + written + tail).skip(1) =~= bytes@);
    transfer_items(to, amount, memo, 1);
    decimal_round_trip(amount as nat);
}

/// A call that was read on its own answers what was written.
pub proof fn calls_on_their_own<'a>(
    version: u8,
    hash: Seq<u8>,
    contract: Seq<u8>,
    function: Seq<u8>,
    count: u32,
    values: Seq<u8>,
    bytes: &'a [u8],
    expert_mode: bool,
    rest: &'a [u8],
    call: TransactionContractCall<'a>,
    found_contract: Result<&[u8], ParserError>,
    found_function: Result<&[u8], ParserError>,
    asked_in_expert_mode: bool,
    found_args: Result<Arguments, ParserError>,
    found_count: Result<u32, ParserError>,
    found_address: Result<AddressText, ParserError>,
    items: u8,
)
    requires
        hash.len() == 20,
        contract.len() <= 128,
        function.len() <= 128,
        bytes@ == encode_call(version, hash, contract, function, count, values),
        call_ensures(
            TransactionContractCall::<'a>::from_bytes,
            (bytes, expert_mode),
            Ok((rest, call)),
        ),
        call_ensures(TransactionContractCall::<'a>::contract_name, (&call,), found_contract),
        call_ensures(TransactionContractCall::<'a>::function_name, (&call,), found_function),
        call_ensures(
            TransactionContractCall::<'a>::function_args,
            (&call, asked_in_expert_mode),
            found_args,
        ),
        call_ensures(
            TransactionContractCall::<'a>::num_args,
            (&call, asked_in_expert_mode),
            found_count,
        ),
        call_ensures(TransactionContractCall::<'a>::contract_address, (&call,), found_address),
        call_ensures(TransactionContractCall::<'a>::num_items, (&call,), items),
    ensures
        found_contract matches Ok(name) && name@ == contract,
        found_function matches Ok(name) && name@ == function,
        asked_in_expert_mode || count <= 10 ==> {
            &&& found_count == Ok::<u32, ParserError>(count)
            &&& found_args matches Ok(args)
            &&& args_count(args@) == count
            &&& args@.skip(4) == values
        },
        !asked_in_expert_mode && count > 10 ==> {
            &&& found_count == Err::<u32, ParserError>(ParserError::parser_invalid_argument_id)
            &&& found_args matches Err(e)
            &&& e == ParserError::parser_invalid_argument_id
        },
        match found_address {
            Ok(a) => version < 32 && is_address_of(a@, version, hash),
            Err(e) => version >= 32 && e == ParserError::parser_invalid_address_version,
        },
        items == 3,
{
    call_round_trip(version, hash, contract, function, count, values, true);
    call_items(version, hash, contract, function, count, values, 0);
}

/// Arguments are read where they have a count, which outside of expert mode is at
/// most ten, and answer the count that was written.
pub proof fn arguments_answer<'a>(
    bytes: &'a [u8],
    count: u32,
    values: Seq<u8>,
    expert_mode: bool,
    read: Result<(&'a [u8], Arguments<'a>), ParserError>,
    found: Result<u32, ParserError>,
)
    requires
        call_ensures(Arguments::<'a>::from_bytes, (bytes, expert_mode), read),
        read matches Ok((_, args)) ==> call_ensures(Arguments::<'a>::num_args, (&args,), found),
    ensures
        bytes@.len() < 4 ==> read == Err::<(&'a [u8], Arguments<'a>), ParserError>(
            ParserError::parser_unexpected_buffer_end,
        ),
        bytes@ == be_bytes(count as nat, 4) + values ==> match read {
            Ok((rest, args)) => {
                &&& expert_mode || count <= 10
                &&& rest@.len() == 0
                &&& args@ == bytes@
                &&& found == Ok::<u32, ParserError>(count)
            },
            Err(e) => !expert_mode && count > 10 && e
                == ParserError::parser_invalid_transaction_payload,
        },
{
    lemma_args(count, values);
}

/// A publication that was read on its own answers its name, or that there is none.
pub proof fn publications_on_their_own<'a>(
    contract: TransactionSmartContract<'a>,
    name: Seq<u8>,
    body: Seq<u8>,
    bytes: &'a [u8],
    rest: &'a [u8],
    found: Result<&[u8], ParserError>,
)
    requires
        call_ensures(TransactionSmartContract::<'a>::from_bytes, (bytes,), Ok((rest, contract))),
        call_ensures(TransactionSmartContract::<'a>::contract_name, (&contract,), found),
    ensures
        rest@.len() == 0,
        name.len() <= 128 && bytes@ == encode_name(name) + body ==> (found matches Ok(n) && n@
            == name),
        match found {
            Ok(_) => !has_no_name(bytes@),
            Err(e) => has_no_name(bytes@) && e == ParserError::parser_invalid_contract_name,
        },
{
    if name.len() <= 128 {
        lemma_encode_name(name, body);
    }
}

/// The items of each kind are shown as those of a payload are, where they exist.
pub proof fn item_screens_agree<'a>(
    transfer: StxTokenTransfer<'a>,
    idx: u8,
    key: &mut [u8],
    value: &mut [u8],
    page: u8,
    result: Result<u8, ParserError>,
    other_key: &mut [u8],
    other_value: &mut [u8],
    other_result: Result<u8, ParserError>,
)
    requires
        idx < 3,
        old(key)@ == old(other_key)@,
        old(value)@ == old(other_value)@,
        call_ensures(
            StxTokenTransfer::<'a>::get_token_transfer_items,
            (&transfer, idx, key, value, page),
            result,
        ),
        call_ensures(
            TransactionPayload::<'a>::get_items,
            (&TransactionPayload::TokenTransfer(transfer), idx, other_key, other_value, page),
            other_result,
        ),
    ensures
        result == other_result,
        final(key)@ == final(other_key)@,
        final(value)@ == final(other_value)@,
{
}

/// The items of a call are shown as those of a payload are, where they exist.
pub proof fn call_screens_agree<'a>(
    call: TransactionContractCall<'a>,
    idx: u8,
    key: &mut [u8],
    value: &mut [u8],
    page: u8,
    result: Result<u8, ParserError>,
    other_key: &mut [u8],
    other_value: &mut [u8],
    other_result: Result<u8, ParserError>,
)
    requires
        idx < 3,
        old(key)@ == old(other_key)@,
        old(value)@ == old(other_value)@,
        call_ensures(
            TransactionContractCall::<'a>::get_contract_call_items,
            (&call, idx, key, value, page),
            result,
        ),
        call_ensures(
            TransactionPayload::<'a>::get_items,
            (&TransactionPayload::ContractCall(call), idx, other_key, other_value, page),
            other_result,
        ),
    ensures
        result == other_result,
        final(key)@ == final(other_key)@,
        final(value)@ == final(other_value)@,
{
}

/// The item of a publication is shown as that of a payload is.
pub proof fn publication_screens_agree<'a>(
    contract: TransactionSmartContract<'a>,
    key: &mut [u8],
    value: &mut [u8],
    page: u8,
    result: Result<u8, ParserError>,
    other_idx: u8,
    other_key: &mut [u8],
    other_value: &mut [u8],
    other_result: Result<u8, ParserError>,
)
    requires
        old(key)@ == old(other_key)@,
        old(value)@ == old(other_value)@,
        call_ensures(
            TransactionSmartContract::<'a>::get_contract_items,
            (&contract, 0, key, value, page),
            result,
        ),
        call_ensures(
            TransactionPayload::<'a>::get_items,
            (
                &TransactionPayload::SmartContract(contract),
                other_idx,
                other_key,
                other_value,
                page,
            ),
            other_result,
        ),
    ensures
        result == other_result,
        final(key)@ == final(other_key)@,
        final(value)@ == final(other_value)@,
{
}

/// An item of a transfer that does not exist is refused, and nothing is shown.
pub proof fn transfers_have_three_items<'a>(
    transfer: StxTokenTransfer<'a>,
    idx: u8,
    key: &mut [u8],
    value: &mut [u8],
    page: u8,
    result: Result<u8, ParserError>,
)
    requires
        idx >= 3,
        call_ensures(
            StxTokenTransfer::<'a>::get_token_transfer_items,
            (&transfer, idx, key, value, page),
            result,
        ),
    ensures
        result == Err::<u8, ParserError>(ParserError::parser_display_idx_out_of_range),
        final(key)@ == old(key)@,
        final(value)@ == old(value)@,
{
}

/// An item of a call that does not exist is refused, and nothing is shown.
pub proof fn calls_have_three_items<'a>(
    call: TransactionContractCall<'a>,
    idx: u8,
    key: &mut [u8],
    value: &mut [u8],
    page: u8,
    result: Result<u8, ParserError>,
)
    requires
        idx >= 3,
        call_ensures(
            TransactionContractCall::<'a>::get_contract_call_items,
            (&call, idx, key, value, page),
            result,
        ),
    ensures
        result == Err::<u8, ParserError>(ParserError::parser_value_out_of_range),
        final(key)@ == old(key)@,
        final(value)@ == old(value)@,
{
}

/// An item of a publication that does not exist is refused, and nothing is shown.
pub proof fn publications_have_one_item<'a>(
    contract: TransactionSmartContract<'a>,
    idx: u8,
    key: &mut [u8],
    value: &mut [u8],
    page: u8,
    result: Result<u8, ParserError>,
)
    requires
        idx >= 1,
        call_ensures(
            TransactionSmartContract::<'a>::get_contract_items,
            (&contract, idx, key, value, page),
            result,
        ),
    ensures
        result == Err::<u8, ParserError>(ParserError::parser_value_out_of_range),
        final(key)@ == old(key)@,
        final(value)@ == old(value)@,
{
}

/// A line shows the page that was asked for, and the answer is the number of
/// pages. A line too short for one character, or a text of more than 255 pages,
/// is refused.
pub proof fn pages_are_shown(
    out: &mut [u8],
    text: &[u8],
    page: u8,
    result: Result<u8, ParserError>,
)
    requires
        call_ensures(page_string, (out, text, page), result),
    ensures
        match result {
            Ok(count) => {
                &&& old(out)@.len() >= 2
                &&& final(out)@.len() == old(out)@.len()
                &&& counts_pages(count as nat, text@.len(), (old(out)@.len() - 1) as nat)
                &&& line_shows(final(out)@, text@, page as nat)
            },
            Err(e) => {
                &&& final(out)@ == old(out)@
                &&& if old(out)@.len() < 2 {
                    e == ParserError::parser_unexpected_buffer_end
                } else {
                    text@.len() > 255 * (old(out)@.len() - 1) && e
                        == ParserError::parser_display_page_out_of_range
                }
            },
        },
{
    lines_show_their_page(text@, old(out)@.len(), page);
}

/// Bytes are written over the front where they fit.
pub proof fn bytes_are_written(out: &mut [u8], text: &[u8], result: Result<(), ParserError>)
    requires
        call_ensures(write_bytes, (out, text), result),
    ensures
        match result {
            Ok(_) => labelled(old(out)@, text@, final(out)@),
            Err(e) => old(out)@.len() < text@.len() && final(out)@ == old(out)@ && e
                == ParserError::parser_unexpected_buffer_end,
        },
{
    if text@.len() <= old(out)@.len() {
        overwriting_keeps_the_rest(old(out)@, text@);
    }
}

/// A label is written over the front where it fits.
pub proof fn labels_are_written(out: &mut [u8], text: &str, result: Result<(), ParserError>)
    requires
        call_ensures(write_str, (out, text), result),
    ensures
        match result {
            Ok(_) => labelled(old(out)@, encode_utf8(text@), final(out)@),
            Err(e) => old(out)@.len() < encode_utf8(text@).len() && final(out)@ == old(out)@ && e
                == ParserError::parser_unexpected_buffer_end,
        },
{
    if encode_utf8(text@).len() <= old(out)@.len() {
        overwriting_keeps_the_rest(old(out)@, encode_utf8(text@));
    }
}

/// A number is written in decimal over the front where it fits, and the answer is
/// the number of its digits.
pub proof fn numbers_are_written(out: &mut [u8], value: u64, result: Result<u8, ParserError>)
    requires
        call_ensures(u64_to_str, (out, value), result),
    ensures
        exists|digits: Seq<u8>|
            #[trigger] is_decimal_of(digits, value as nat) && match result {
                Ok(len) => len == digits.len() && labelled(old(out)@, digits, final(out)@),
                Err(e) => old(out)@.len() < digits.len() && final(out)@ == old(out)@ && e
                    == ParserError::parser_unexpected_buffer_end,
            },
{
    let digits = decimal(value as nat);
    decimal_round_trip(value as nat);
    if digits.len() <= old(out)@.len() {
        overwriting_keeps_the_rest(old(out)@, digits);
    }
    assert(is_decimal_of(digits, value as nat));
}

/// What is encoded spells the data.
pub proof fn data_is_encoded(data: &[u8], text: Vec<u8>)
    requires
        call_ensures(c32_encode, (data,), text),
    ensures
        spells(text@, data@),
{
    encodings_spell_the_data(data@);
}

/// A hash of twenty bytes has an address for every version that is a digit of base
/// 32, and for no other.
pub proof fn hashes_have_addresses(
    version: u8,
    hash: &[u8],
    result: Result<AddressText, ParserError>,
)
    requires
        call_ensures(c32_address, (version, hash), result),
    ensures
        result matches Ok(a) ==> version < 32 && is_address_of(a@, version, hash@),
        version >= 32 ==> (result matches Err(e) && e
            == ParserError::parser_invalid_address_version),
        version < 32 && hash@.len() == 20 ==> result is Ok,
        version < 32 && result is Err ==> (result matches Err(e) && e
            == ParserError::parser_unexpected_buffer_end),
{
    if version < 32 {
        addresses_are_c32check(version, hash@);
    }
}

/// With the checksum given, an address spells the hash and that checksum. It is
/// owed where there is sure to be room for it.
pub proof fn addresses_with_a_checksum(
    version: u8,
    data: &[u8],
    checksum: &[u8],
    result: Result<AddressText, ParserError>,
)
    requires
        call_ensures(c32_address_with_checksum, (version, data, checksum), result),
    ensures
        match result {
            Ok(a) => {
                &&& version < 32
                &&& a@.len() >= 2
                &&& a@[0] == 83
                &&& is_c32_char(a@[1])
                &&& c32_digit(a@[1]) == version
                &&& spells(a@.skip(2), data@ + checksum@)
            },
            Err(e) => if version >= 32 {
                e == ParserError::parser_invalid_address_version
            } else {
                data@.len() + checksum@.len() > 28 && e
                    == ParserError::parser_unexpected_buffer_end
            },
        },
{
    let whole = data@ + checksum@;
    encodings_spell_the_data(whole);
    lemma_encoding_len(whole);
    if version < 32 {
        c32_digits_read_back(version as nat);
        assert(c32_text(version, data@, checksum@).skip(2) =~= c32_encoding(whole));
    }
}

/// Names that are written out are read, whatever follows them. Where there is no
/// name, the error tells a length above 128 from an input that ends early.
pub proof fn names_are_read<'a>(
    bytes: &'a [u8],
    name: Seq<u8>,
    tail: Seq<u8>,
    contract: Result<(&'a [u8], ContractName<'a>), ParserError>,
    function: Result<(&'a [u8], ClarityName<'a>), ParserError>,
)
    requires
        call_ensures(ContractName::<'a>::from_bytes, (bytes,), contract),
        call_ensures(ClarityName::<'a>::from_bytes, (bytes,), function),
    ensures
        name.len() <= 128 && bytes@ == encode_name(name) + tail ==> {
            &&& contract matches Ok((rest, found))
            &&& rest@ == tail
            &&& found.0@ == name
            &&& function matches Ok((rest, found))
            &&& rest@ == tail
            &&& found.0@ == name
        },
        contract is Err <==> has_no_name(bytes@),
        function is Err <==> has_no_name(bytes@),
        contract matches Err(e) ==> (e == ParserError::parser_value_out_of_range <==> bytes@.len()
            > 0 && bytes@[0] > 128) && (e == ParserError::parser_value_out_of_range || e
            == ParserError::parser_unexpected_buffer_end),
        function matches Err(e) ==> (e == ParserError::parser_value_out_of_range <==> bytes@.len()
            > 0 && bytes@[0] > 128) && (e == ParserError::parser_value_out_of_range || e
            == ParserError::parser_unexpected_buffer_end),
{
    if name.len() <= 128 {
        lemma_encode_name(name, tail);
    }
}

/// Addresses and principals that are written out are read, whatever follows them.
pub proof fn principals_are_read<'a>(
    bytes: &'a [u8],
    version: u8,
    hash: Seq<u8>,
    name: Seq<u8>,
    tail: Seq<u8>,
    address: Result<(&'a [u8], StacksAddress<'a>), ParserError>,
    standard: Result<(&'a [u8], PrincipalData<'a>), ParserError>,
    contract: Result<(&'a [u8], PrincipalData<'a>), ParserError>,
)
    requires
        call_ensures(StacksAddress::<'a>::from_bytes, (bytes,), address),
        call_ensures(PrincipalData::<'a>::standard_from_bytes, (bytes,), standard),
        call_ensures(PrincipalData::<'a>::contract_principal_from_bytes, (bytes,), contract),
    ensures
        hash.len() == 20 && bytes@ == seq![version] + hash + tail ==> {
            &&& address matches Ok((rest, found))
            &&& rest@ == tail
            &&& found.0 == version
            &&& found.1@ == hash
            &&& standard matches Ok((rest, PrincipalData::Standard(found)))
            &&& rest@ == tail
            &&& found.0 == version
            &&& found.1@ == hash
        },
        hash.len() == 20 && name.len() <= 128 && bytes@ == seq![version] + hash + (encode_name(name)
            + tail) ==> {
            &&& contract matches Ok((rest, PrincipalData::Contract(found, found_name)))
            &&& rest@ == tail
            &&& found.0 == version
            &&& found.1@ == hash
            &&& found_name.0@ == name
        },
        bytes@.len() < 21 ==> {
            &&& address matches Err(e)
            &&& e == ParserError::parser_unexpected_buffer_end
            &&& standard matches Err(e)
            &&& e == ParserError::parser_unexpected_buffer_end
            &&& contract matches Err(e)
            &&& e == ParserError::parser_unexpected_buffer_end
        },
        bytes@.len() >= 21 ==> (contract is Err <==> has_no_name(bytes@.skip(21))),
        bytes@.len() >= 21 && contract is Err ==> (contract matches Err(e) && e == if bytes@.len()
            > 21 && bytes@[21] > 128 {
            ParserError::parser_value_out_of_range
        } else {
            ParserError::parser_unexpected_buffer_end
        }),
{
    let b = bytes@;
    if hash.len() == 20 && b == seq![version] + hash + tail {
        assert(b.subrange(1, 21) =~= hash);
        assert(b.skip(21) =~= tail);
    }
    if hash.len() == 20 && name.len() <= 128 && b == seq![version] + hash + (encode_name(name)
        + tail) {
        lemma_encode_name(name, tail);
        assert(b.subrange(1, 21) =~= hash);
        assert(b.skip(21) =~= encode_name(name) + tail);
        assert(b.skip((22 + name.len()) as int) =~= tail);
    }
    if b.len() > 21 {
        assert(b.skip(21)[0] == b[21]);
    }
}

/// A byte is read where there is one, and where it is not above the limit.
pub proof fn limited_bytes_are_read<'a>(
    limit: u8,
    bytes: &'a [u8],
    v: u8,
    tail: Seq<u8>,
    read: Result<(&'a [u8], u8), ParserError>,
)
    requires
        call_ensures(u8_with_limits, (limit, bytes), read),
    ensures
        bytes@.len() == 0 ==> (read matches Err(e) && e
            == ParserError::parser_unexpected_buffer_end),
        bytes@ == seq![v] + tail && v <= limit ==> (read matches Ok((rest, found)) && rest@ == tail
            && found == v),
        bytes@ == seq![v] + tail && v > limit ==> (read matches Err(e) && e
            == ParserError::parser_value_out_of_range),
{
    assert((seq![v] + tail).skip(1) =~= tail);
}

/// The kinds are announced by these bytes and no others.
pub proof fn kinds_have_their_bytes(
    v: u8,
    payload: Result<TransactionPayloadId, ParserError>,
    principal: Result<TokenTranferPrincipal, ParserError>,
    payload_kind: TransactionPayloadId,
    payload_byte: u8,
    principal_kind: TokenTranferPrincipal,
    principal_byte: u8,
)
    requires
        call_ensures(TransactionPayloadId::from_u8, (v,), payload),
        call_ensures(TokenTranferPrincipal::from_u8, (v,), principal),
        call_ensures(TransactionPayloadId::to_u8, (payload_kind,), payload_byte),
        call_ensures(TokenTranferPrincipal::to_u8, (principal_kind,), principal_byte),
    ensures
        payload is Ok <==> v < 3,
        payload matches Err(e) ==> e == ParserError::parser_invalid_transaction_payload,
        payload_byte == v <==> payload == Ok::<TransactionPayloadId, ParserError>(payload_kind),
        payload_kind == TransactionPayloadId::TokenTransfer <==> payload_byte == 0,
        payload_kind == TransactionPayloadId::SmartContract <==> payload_byte == 1,
        payload_kind == TransactionPayloadId::ContractCall <==> payload_byte == 2,
        principal is Ok <==> v == 5 || v == 6,
        principal matches Err(e) ==> e == ParserError::parser_invalid_token_transfer_principal,
        principal_byte == v <==> principal == Ok::<TokenTranferPrincipal, ParserError>(
            principal_kind,
        ),
        principal_kind == TokenTranferPrincipal::Standard <==> principal_byte == 5,
        principal_kind == TokenTranferPrincipal::Contract <==> principal_byte == 6,
{
}

/// A copy holds what was copied.
pub proof fn copies_hold_the_same<'a>(
    payload: TransactionPayload<'a>,
    payload_copy: TransactionPayload<'a>,
    transfer: StxTokenTransfer<'a>,
    transfer_copy: StxTokenTransfer<'a>,
    contract: TransactionSmartContract<'a>,
    contract_copy: TransactionSmartContract<'a>,
    call: TransactionContractCall<'a>,
    call_copy: TransactionContractCall<'a>,
    args: Arguments<'a>,
    args_copy: Arguments<'a>,
    address: AddressText,
    address_copy: AddressText,
    amount: AmountText,
    amount_copy: AmountText,
)
    requires
        call_ensures(TransactionPayload::<'a>::clone, (&payload,), payload_copy),
        call_ensures(StxTokenTransfer::<'a>::clone, (&transfer,), transfer_copy),
        call_ensures(TransactionSmartContract::<'a>::clone, (&contract,), contract_copy),
        call_ensures(TransactionContractCall::<'a>::clone, (&call,), call_copy),
        call_ensures(Arguments::<'a>::clone, (&args,), args_copy),
        call_ensures(AddressText::clone, (&address,), address_copy),
        call_ensures(AmountText::clone, (&amount,), amount_copy),
    ensures
        payload_copy@ == payload@,
        transfer_copy@ == transfer@,
        contract_copy@ == contract@,
        call_copy@ == call@,
        args_copy@ == args@,
        address_copy@ == address@,
        amount_copy@ == amount@,
{
}

/// Texts give back the characters that they were made from.
pub proof fn texts_give_back_their_characters(
    chars: &[u8],
    address: Result<AddressText, ParserError>,
    address_found: &[u8],
    digits: [u8; 30],
    len: usize,
    amount: AmountText,
    amount_found: &[u8],
)
    requires
        call_ensures(AddressText::from_slice, (chars,), address),
        address matches Ok(text) ==> call_ensures(AddressText::as_slice, (&text,), address_found),
        call_ensures(AmountText::from_array, (digits, len), amount),
        call_ensures(AmountText::as_slice, (&amount,), amount_found),
    ensures
        chars@.len() <= 48 ==> address is Ok && address_found@ == chars@,
        chars@.len() > 48 ==> (address matches Err(e) && e
            == ParserError::parser_unexpected_buffer_end),
        amount_found@.len() == if len < 30 {
            len as int
        } else {
            30
        },
        forall|i: int| 0 <= i < amount_found@.len() ==> #[trigger] amount_found@[i] == digits@[i],
{
}

} // verus!
