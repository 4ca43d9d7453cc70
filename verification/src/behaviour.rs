//! What the operations on payloads do, from the bytes that go in to the answers
//! that come out.

use crate::error::ParserError;
use crate::laws::{
    call_items, call_round_trip, encode_call, encode_transfer, every_call_is_written_out,
    every_transfer_is_written_out, is_address_of, is_decimal_of, nameless_publication_items,
    publication_items, publication_round_trip, screen_shows, screens_show_the_item, transfer_items,
    transfer_round_trip, Recipient,
};
use crate::parser_common::encode_name;
use crate::payload::{payload_item, Payload, TransactionPayload, TransactionPayloadId};
use crate::text::AddressText;
use vstd::prelude::*;
use vstd::utf8::encode_utf8;

verus! {

/// `payload` is what was read off the front of `bytes`, and `rest` what was left.
pub open spec fn was_read<'a>(
    bytes: &'a [u8],
    expert_mode: bool,
    rest: &'a [u8],
    payload: TransactionPayload<'a>,
) -> bool {
    call_ensures(TransactionPayload::<'a>::from_bytes, (bytes, expert_mode), Ok((rest, payload)))
}

/// A transfer that is written out is read, and what follows it is left over.
pub proof fn transfers_are_read<'a>(
    to: Recipient,
    amount: u64,
    memo: Seq<u8>,
    tail: Seq<u8>,
    bytes: &'a [u8],
    expert_mode: bool,
    read: Result<(&'a [u8], TransactionPayload<'a>), ParserError>,
)
    requires
        to.valid(),
        memo.len() == 34,
        bytes@ == seq![0u8] + encode_transfer(to, amount, memo) + tail,
        call_ensures(TransactionPayload::<'a>::from_bytes, (bytes, expert_mode), read),
    ensures
        read matches Ok((rest, payload)) && rest@ == tail && payload@ == (Payload {
            kind: TransactionPayloadId::TokenTransfer,
            bytes: encode_transfer(to, amount, memo),
        }),
{
    transfer_round_trip(to, amount, memo, tail, expert_mode);
}

/// `payload` was read from a transfer to `to`.
pub open spec fn is_transfer<'a>(
    payload: TransactionPayload<'a>,
    to: Recipient,
    amount: u64,
    memo: Seq<u8>,
) -> bool {
    &&& to.valid()
    &&& memo.len() == 34
    &&& exists|bytes: &'a [u8], expert_mode: bool, rest: &'a [u8]|
        bytes@ == seq![0u8] + encode_transfer(to, amount, memo) + rest@ && #[trigger] was_read(
            bytes,
            expert_mode,
            rest,
            payload,
        )
}

/// What a payload holds that was read from a transfer.
proof fn lemma_transfer<'a>(
    payload: TransactionPayload<'a>,
    to: Recipient,
    amount: u64,
    memo: Seq<u8>,
)
    requires
        is_transfer(payload, to, amount, memo),
    ensures
        payload@ == (Payload {
            kind: TransactionPayloadId::TokenTransfer,
            bytes: encode_transfer(to, amount, memo),
        }),
{
    let (bytes, expert_mode, rest) = choose|bytes: &'a [u8], expert_mode: bool, rest: &'a [u8]|
        bytes@ == seq![0u8] + encode_transfer(to, amount, memo) + rest@ && #[trigger] was_read(
            bytes,
            expert_mode,
            rest,
            payload,
        );
    transfer_round_trip(to, amount, memo, rest@, expert_mode);
}

/// A transfer answers the amount, the message and the address that were written,
/// and nothing that only a contract has.
pub proof fn transfers_answer<'a>(
    payload: TransactionPayload<'a>,
    to: Recipient,
    amount: u64,
    memo: Seq<u8>,
    found_amount: Option<u64>,
    found_memo: Option<&[u8]>,
    found_address: Option<AddressText>,
    contract: Option<&[u8]>,
    function: Option<&[u8]>,
    asked_in_expert_mode: bool,
    args: Option<u32>,
    contract_address: Option<AddressText>,
)
    requires
        is_transfer(payload, to, amount, memo),
        call_ensures(TransactionPayload::<'a>::amount, (&payload,), found_amount),
        call_ensures(TransactionPayload::<'a>::memo, (&payload,), found_memo),
        call_ensures(TransactionPayload::<'a>::recipient_address, (&payload,), found_address),
        call_ensures(TransactionPayload::<'a>::contract_name, (&payload,), contract),
        call_ensures(TransactionPayload::<'a>::function_name, (&payload,), function),
        call_ensures(TransactionPayload::<'a>::num_args, (&payload, asked_in_expert_mode), args),
        call_ensures(TransactionPayload::<'a>::contract_address, (&payload,), contract_address),
    ensures
        found_amount == Some(amount),
        found_memo matches Some(m) && m@ == memo,
        to.version < 32 ==> (found_address matches Some(a) && is_address_of(
            a@,
            to.version,
            to.hash,
        )),
        to.version >= 32 ==> found_address is None,
        contract is None,
        function is None,
        args is None,
        contract_address is None,
{
    lemma_transfer(payload, to, amount, memo);
    transfer_round_trip(to, amount, memo, Seq::empty(), false);
    transfer_items(to, amount, memo, 1);
}

/// A transfer says that it is one, and has three display items.
pub proof fn transfers_know_their_kind<'a>(
    payload: TransactionPayload<'a>,
    to: Recipient,
    amount: u64,
    memo: Seq<u8>,
    is_transfer_payload: bool,
    is_publication: bool,
    is_call: bool,
    items: u8,
)
    requires
        is_transfer(payload, to, amount, memo),
        call_ensures(
            TransactionPayload::<'a>::is_token_transfer_payload,
            (&payload,),
            is_transfer_payload,
        ),
        call_ensures(
            TransactionPayload::<'a>::is_smart_contract_payload,
            (&payload,),
            is_publication,
        ),
        call_ensures(TransactionPayload::<'a>::is_contract_call_payload, (&payload,), is_call),
        call_ensures(TransactionPayload::<'a>::num_items, (&payload,), items),
    ensures
        is_transfer_payload && !is_publication && !is_call,
        items == 3,
{
    lemma_transfer(payload, to, amount, memo);
}

/// On the screen a transfer shows its whole amount in decimal, the address of the
/// recipient and the message, each under its label and on the page asked for.
pub proof fn transfers_are_shown<'a>(
    payload: TransactionPayload<'a>,
    to: Recipient,
    amount: u64,
    memo: Seq<u8>,
    display_idx: u8,
    out_key: &mut [u8],
    out_value: &mut [u8],
    page_idx: u8,
    result: Result<u8, ParserError>,
)
    requires
        is_transfer(payload, to, amount, memo),
        call_ensures(
            TransactionPayload::<'a>::get_items,
            (&payload, display_idx, out_key, out_value, page_idx),
            result,
        ),
    ensures
        display_idx % 3 == 0 ==> exists|text: Seq<u8>|
            #[trigger] is_decimal_of(text, amount as nat) && screen_shows(
                encode_utf8("Amount uSTX"@),
                Ok(text),
                page_idx,
                old(out_key)@,
                old(out_value)@,
                result,
                final(out_key)@,
                final(out_value)@,
            ),
        display_idx % 3 == 1 && to.version < 32 ==> exists|text: Seq<u8>|
            #[trigger] is_address_of(text, to.version, to.hash) && screen_shows(
                encode_utf8("To"@),
                Ok(text),
                page_idx,
                old(out_key)@,
                old(out_value)@,
                result,
                final(out_key)@,
                final(out_value)@,
            ),
        display_idx % 3 == 1 && to.version >= 32 ==> screen_shows(
            encode_utf8("To"@),
            Err(ParserError::parser_invalid_address_version),
            page_idx,
            old(out_key)@,
            old(out_value)@,
            result,
            final(out_key)@,
            final(out_value)@,
        ),
        display_idx % 3 == 2 ==> screen_shows(
            encode_utf8("Memo"@),
            Ok(memo),
            page_idx,
            old(out_key)@,
            old(out_value)@,
            result,
            final(out_key)@,
            final(out_value)@,
        ),
{
    lemma_transfer(payload, to, amount, memo);
    transfer_items(to, amount, memo, display_idx);
    let item = payload_item(payload@, display_idx)->Some_0;
    screens_show_the_item(item, old(out_key)@, old(out_value)@, page_idx);
}

/// A call that is written out is read, unless it has more than ten arguments
/// outside of expert mode. Nothing is left over.
pub proof fn calls_are_read<'a>(
    version: u8,
    hash: Seq<u8>,
    contract: Seq<u8>,
    function: Seq<u8>,
    count: u32,
    values: Seq<u8>,
    bytes: &'a [u8],
    expert_mode: bool,
    read: Result<(&'a [u8], TransactionPayload<'a>), ParserError>,
)
    requires
        hash.len() == 20,
        contract.len() <= 128,
        function.len() <= 128,
        bytes@ == seq![2u8] + encode_call(version, hash, contract, function, count, values),
        call_ensures(TransactionPayload::<'a>::from_bytes, (bytes, expert_mode), read),
    ensures
        match read {
            Ok((rest, payload)) => (expert_mode || count <= 10) && rest@.len() == 0 && payload@ == (
            Payload {
                kind: TransactionPayloadId::ContractCall,
                bytes: encode_call(version, hash, contract, function, count, values),
            }),
            Err(e) => !expert_mode && count > 10 && e
                == ParserError::parser_invalid_transaction_payload,
        },
{
    call_round_trip(version, hash, contract, function, count, values, expert_mode);
}

/// `payload` was read from a call of `function` of the contract `contract`.
pub open spec fn is_call<'a>(
    payload: TransactionPayload<'a>,
    version: u8,
    hash: Seq<u8>,
    contract: Seq<u8>,
    function: Seq<u8>,
    count: u32,
    values: Seq<u8>,
) -> bool {
    &&& hash.len() == 20
    &&& contract.len() <= 128
    &&& function.len() <= 128
    &&& exists|bytes: &'a [u8], expert_mode: bool, rest: &'a [u8]|
        bytes@ == seq![2u8] + encode_call(version, hash, contract, function, count, values)
            && #[trigger] was_read(bytes, expert_mode, rest, payload)
}

/// What a payload holds that was read from a call.
proof fn lemma_call<'a>(
    payload: TransactionPayload<'a>,
    version: u8,
    hash: Seq<u8>,
    contract: Seq<u8>,
    function: Seq<u8>,
    count: u32,
    values: Seq<u8>,
)
    requires
        is_call(payload, version, hash, contract, function, count, values),
    ensures
        payload@ == (Payload {
            kind: TransactionPayloadId::ContractCall,
            bytes: encode_call(version, hash, contract, function, count, values),
        }),
{
    let (bytes, expert_mode, rest) = choose|bytes: &'a [u8], expert_mode: bool, rest: &'a [u8]|
        bytes@ == seq![2u8] + encode_call(version, hash, contract, function, count, values)
            && #[trigger] was_read(bytes, expert_mode, rest, payload);
    call_round_trip(version, hash, contract, function, count, values, expert_mode);
}

/// A call answers the names, the number of arguments and the address that were
/// written, and nothing that only a transfer has. Outside of expert mode it does
/// not answer a number above ten.
pub proof fn calls_answer<'a>(
    payload: TransactionPayload<'a>,
    version: u8,
    hash: Seq<u8>,
    contract: Seq<u8>,
    function: Seq<u8>,
    count: u32,
    values: Seq<u8>,
    found_contract: Option<&[u8]>,
    found_function: Option<&[u8]>,
    asked_in_expert_mode: bool,
    found_args: Option<u32>,
    found_address: Option<AddressText>,
    amount: Option<u64>,
    memo: Option<&[u8]>,
    recipient: Option<AddressText>,
)
    requires
        is_call(payload, version, hash, contract, function, count, values),
        call_ensures(TransactionPayload::<'a>::contract_name, (&payload,), found_contract),
        call_ensures(TransactionPayload::<'a>::function_name, (&payload,), found_function),
        call_ensures(
            TransactionPayload::<'a>::num_args,
            (&payload, asked_in_expert_mode),
            found_args,
        ),
        call_ensures(TransactionPayload::<'a>::contract_address, (&payload,), found_address),
        call_ensures(TransactionPayload::<'a>::amount, (&payload,), amount),
        call_ensures(TransactionPayload::<'a>::memo, (&payload,), memo),
        call_ensures(TransactionPayload::<'a>::recipient_address, (&payload,), recipient),
    ensures
        found_contract matches Some(name) && name@ == contract,
        found_function matches Some(name) && name@ == function,
        asked_in_expert_mode || count <= 10 ==> found_args == Some(count),
        !asked_in_expert_mode && count > 10 ==> found_args is None,
        version < 32 ==> (found_address matches Some(a) && is_address_of(a@, version, hash)),
        version >= 32 ==> found_address is None,
        amount is None,
        memo is None,
        recipient is None,
{
    lemma_call(payload, version, hash, contract, function, count, values);
    call_round_trip(version, hash, contract, function, count, values, true);
    call_items(version, hash, contract, function, count, values, 0);
}

/// A call says that it is one, and has three display items.
pub proof fn calls_know_their_kind<'a>(
    payload: TransactionPayload<'a>,
    version: u8,
    hash: Seq<u8>,
    contract: Seq<u8>,
    function: Seq<u8>,
    count: u32,
    values: Seq<u8>,
    is_transfer_payload: bool,
    is_publication: bool,
    is_call_payload: bool,
    items: u8,
)
    requires
        is_call(payload, version, hash, contract, function, count, values),
        call_ensures(
            TransactionPayload::<'a>::is_token_transfer_payload,
            (&payload,),
            is_transfer_payload,
        ),
        call_ensures(
            TransactionPayload::<'a>::is_smart_contract_payload,
            (&payload,),
            is_publication,
        ),
        call_ensures(
            TransactionPayload::<'a>::is_contract_call_payload,
            (&payload,),
            is_call_payload,
        ),
        call_ensures(TransactionPayload::<'a>::num_items, (&payload,), items),
    ensures
        !is_transfer_payload && !is_publication && is_call_payload,
        items == 3,
{
    lemma_call(payload, version, hash, contract, function, count, values);
}

/// On the screen a call shows the address of the contract and both names in full,
/// each under its label and on the page asked for.
pub proof fn calls_are_shown<'a>(
    payload: TransactionPayload<'a>,
    version: u8,
    hash: Seq<u8>,
    contract: Seq<u8>,
    function: Seq<u8>,
    count: u32,
    values: Seq<u8>,
    display_idx: u8,
    out_key: &mut [u8],
    out_value: &mut [u8],
    page_idx: u8,
    result: Result<u8, ParserError>,
)
    requires
        is_call(payload, version, hash, contract, function, count, values),
        call_ensures(
            TransactionPayload::<'a>::get_items,
            (&payload, display_idx, out_key, out_value, page_idx),
            result,
        ),
    ensures
        display_idx % 3 == 0 && version < 32 ==> exists|text: Seq<u8>|
            #[trigger] is_address_of(text, version, hash) && screen_shows(
                encode_utf8("Contract address"@),
                Ok(text),
                page_idx,
                old(out_key)@,
                old(out_value)@,
                result,
                final(out_key)@,
                final(out_value)@,
            ),
        display_idx % 3 == 0 && version >= 32 ==> screen_shows(
            encode_utf8("Contract address"@),
            Err(ParserError::parser_invalid_address_version),
            page_idx,
            old(out_key)@,
            old(out_value)@,
            result,
            final(out_key)@,
            final(out_value)@,
        ),
        display_idx % 3 == 1 ==> screen_shows(
            encode_utf8("Contract name"@),
            Ok(contract),
            page_idx,
            old(out_key)@,
            old(out_value)@,
            result,
            final(out_key)@,
            final(out_value)@,
        ),
        display_idx % 3 == 2 ==> screen_shows(
            encode_utf8("Function name"@),
            Ok(function),
            page_idx,
            old(out_key)@,
            old(out_value)@,
            result,
            final(out_key)@,
            final(out_value)@,
        ),
{
    lemma_call(payload, version, hash, contract, function, count, values);
    call_items(version, hash, contract, function, count, values, display_idx);
    let item = payload_item(payload@, display_idx)->Some_0;
    screens_show_the_item(item, old(out_key)@, old(out_value)@, page_idx);
}

/// Any bytes are read as a publication, and nothing is left over.
pub proof fn publications_are_read<'a>(
    body: Seq<u8>,
    bytes: &'a [u8],
    expert_mode: bool,
    read: Result<(&'a [u8], TransactionPayload<'a>), ParserError>,
)
    requires
        bytes@ == seq![1u8] + body,
        call_ensures(TransactionPayload::<'a>::from_bytes, (bytes, expert_mode), read),
    ensures
        read matches Ok((rest, payload)) && rest@.len() == 0 && payload@ == (Payload {
            kind: TransactionPayloadId::SmartContract,
            bytes: body,
        }),
{
    assert((seq![1u8] + body).skip(1) =~= body);
}

/// `payload` was read from a publication that consists of `body`.
pub open spec fn is_publication<'a>(payload: TransactionPayload<'a>, body: Seq<u8>) -> bool {
    exists|bytes: &'a [u8], expert_mode: bool, rest: &'a [u8]|
        bytes@ == seq![1u8] + body && #[trigger] was_read(bytes, expert_mode, rest, payload)
}

/// What a payload holds that was read from a publication.
proof fn lemma_publication<'a>(payload: TransactionPayload<'a>, body: Seq<u8>)
    requires
        is_publication(payload, body),
    ensures
        payload@ == (Payload { kind: TransactionPayloadId::SmartContract, bytes: body }),
{
    let (bytes, expert_mode, rest) = choose|bytes: &'a [u8], expert_mode: bool, rest: &'a [u8]|
        bytes@ == seq![1u8] + body && #[trigger] was_read(bytes, expert_mode, rest, payload);
    publications_are_read(body, bytes, expert_mode, Ok((rest, payload)));
}

/// No name can be read off the front of `body`: its length is missing or above
/// 128, or it ends early.
pub open spec fn has_no_name(body: Seq<u8>) -> bool {
    body.len() == 0 || body[0] > 128 || body.len() < 1 + body[0]
}

/// A publication answers the name that stands in front, says what it is, and has
/// nothing that a transfer or a call has.
pub proof fn publications_answer<'a>(
    payload: TransactionPayload<'a>,
    body: Seq<u8>,
    name: Seq<u8>,
    source: Seq<u8>,
    found_contract: Option<&[u8]>,
    function: Option<&[u8]>,
    asked_in_expert_mode: bool,
    args: Option<u32>,
    address: Option<AddressText>,
    amount: Option<u64>,
    memo: Option<&[u8]>,
    recipient: Option<AddressText>,
)
    requires
        is_publication(payload, body),
        call_ensures(TransactionPayload::<'a>::contract_name, (&payload,), found_contract),
        call_ensures(TransactionPayload::<'a>::function_name, (&payload,), function),
        call_ensures(TransactionPayload::<'a>::num_args, (&payload, asked_in_expert_mode), args),
        call_ensures(TransactionPayload::<'a>::contract_address, (&payload,), address),
        call_ensures(TransactionPayload::<'a>::amount, (&payload,), amount),
        call_ensures(TransactionPayload::<'a>::memo, (&payload,), memo),
        call_ensures(TransactionPayload::<'a>::recipient_address, (&payload,), recipient),
    ensures
        name.len() <= 128 && body == encode_name(name) + source ==> (found_contract matches Some(
            found,
        ) && found@ == name),
        has_no_name(body) <==> found_contract is None,
        function is None,
        args is None,
        address is None,
        amount is None,
        memo is None,
        recipient is None,
{
    lemma_publication(payload, body);
    if name.len() <= 128 {
        publication_round_trip(name, source, false);
    }
}

/// A publication says that it is one, and has one display item.
pub proof fn publications_know_their_kind<'a>(
    payload: TransactionPayload<'a>,
    body: Seq<u8>,
    is_transfer_payload: bool,
    is_publication_payload: bool,
    is_call_payload: bool,
    items: u8,
)
    requires
        is_publication(payload, body),
        call_ensures(
            TransactionPayload::<'a>::is_token_transfer_payload,
            (&payload,),
            is_transfer_payload,
        ),
        call_ensures(
            TransactionPayload::<'a>::is_smart_contract_payload,
            (&payload,),
            is_publication_payload,
        ),
        call_ensures(
            TransactionPayload::<'a>::is_contract_call_payload,
            (&payload,),
            is_call_payload,
        ),
        call_ensures(TransactionPayload::<'a>::num_items, (&payload,), items),
    ensures
        !is_transfer_payload && is_publication_payload && !is_call_payload,
        items == 1,
{
    lemma_publication(payload, body);
}

/// On the screen a publication shows its name in full, or says that it has none.
pub proof fn publications_are_shown<'a>(
    payload: TransactionPayload<'a>,
    body: Seq<u8>,
    name: Seq<u8>,
    source: Seq<u8>,
    display_idx: u8,
    out_key: &mut [u8],
    out_value: &mut [u8],
    page_idx: u8,
    result: Result<u8, ParserError>,
)
    requires
        is_publication(payload, body),
        call_ensures(
            TransactionPayload::<'a>::get_items,
            (&payload, display_idx, out_key, out_value, page_idx),
            result,
        ),
    ensures
        name.len() <= 128 && body == encode_name(name) + source ==> screen_shows(
            encode_utf8("Contract Name"@),
            Ok(name),
            page_idx,
            old(out_key)@,
            old(out_value)@,
            result,
            final(out_key)@,
            final(out_value)@,
        ),
        has_no_name(body) ==> screen_shows(
            encode_utf8("Contract Name"@),
            Err(ParserError::parser_invalid_contract_name),
            page_idx,
            old(out_key)@,
            old(out_value)@,
            result,
            final(out_key)@,
            final(out_value)@,
        ),
{
    lemma_publication(payload, body);
    if name.len() <= 128 {
        publication_items(name, source, display_idx);
    }
    if has_no_name(body) {
        nameless_publication_items(body, display_idx);
    }
    let item = payload_item(payload@, display_idx)->Some_0;
    screens_show_the_item(item, old(out_key)@, old(out_value)@, page_idx);
}

/// Every payload that is read is a transfer, a publication or a call that was
/// written out, and the byte in front tells which.
pub proof fn payloads_are_of_three_kinds<'a>(
    bytes: &'a [u8],
    expert_mode: bool,
    rest: &'a [u8],
    payload: TransactionPayload<'a>,
)
    requires
        was_read(bytes, expert_mode, rest, payload),
    ensures
        bytes@.len() > 0,
        bytes@[0] <= 2,
        bytes@[0] == 0 ==> exists|to: Recipient, amount: u64, memo: Seq<u8>|
            is_transfer(payload, to, amount, memo),
        bytes@[0] == 1 ==> is_publication(payload, bytes@.skip(1)),
        bytes@[0] == 2 ==> exists|
            version: u8,
            hash: Seq<u8>,
            contract: Seq<u8>,
            function: Seq<u8>,
            count: u32,
            values: Seq<u8>,
        | is_call(payload, version, hash, contract, function, count, values),
{
    let b = bytes@;
    if b[0] == 0 {
        every_transfer_is_written_out(b, expert_mode);
        let (to, amount, memo, tail) = choose|
            to: Recipient,
            amount: u64,
            memo: Seq<u8>,
            tail: Seq<u8>,
        |
            to.valid() && memo.len() == 34 && b == #[trigger] (seq![0u8] + encode_transfer(
                to,
                amount,
                memo,
            ) + tail);
        transfer_round_trip(to, amount, memo, tail, expert_mode);
        assert(is_transfer(payload, to, amount, memo));
    } else if b[0] == 1 {
        assert(b =~= seq![1u8] + b.skip(1));
    } else {
        every_call_is_written_out(b, expert_mode);
        let (version, hash, contract, function, count, values) = choose|
            version: u8,
            hash: Seq<u8>,
            contract: Seq<u8>,
            function: Seq<u8>,
            count: u32,
            values: Seq<u8>,
        |
            hash.len() == 20 && contract.len() <= 128 && function.len() <= 128 && b == seq![2u8]
                + #[trigger] encode_call(version, hash, contract, function, count, values);
        assert(is_call(payload, version, hash, contract, function, count, values));
    }
}

} // verus!
