//! The payload of a transaction, of any kind.

use crate::contract_call::{
    args_count, call_address, call_args, call_contract_name, call_function_name, call_item,
    contract_call_error, TransactionContractCall, MAX_NUM_ARGS,
};
use crate::display::{shown, Item, Shown};
use crate::error::ParserError;
use crate::input::le_u8;
use crate::smart_contract::{smart_contract_item, smart_contract_name, TransactionSmartContract};
use crate::text::AddressText;
use crate::token_transfer::{
    token_address, token_amount, token_item, token_memo, token_transfer_len, StxTokenTransfer,
};
use vstd::prelude::*;

verus! {

/// The kinds of payloads. `to_u8` gives the byte that announces a kind.
#[derive(Debug, Clone, Copy, PartialEq, Eq, Structural)]
pub enum TransactionPayloadId {
    TokenTransfer,
    SmartContract,
    ContractCall,
}

impl TransactionPayloadId {
    /// The byte that announces the kind.
    pub open spec fn tag(self) -> u8 {
        match self {
            TransactionPayloadId::TokenTransfer => 0,
            TransactionPayloadId::SmartContract => 1,
            TransactionPayloadId::ContractCall => 2,
        }
    }

    /// The kind that a byte announces, if any.
    pub open spec fn of_tag(v: u8) -> Result<Self, ParserError> {
        if v == TransactionPayloadId::TokenTransfer.tag() {
            Ok(TransactionPayloadId::TokenTransfer)
        } else if v == TransactionPayloadId::SmartContract.tag() {
            Ok(TransactionPayloadId::SmartContract)
        } else if v == TransactionPayloadId::ContractCall.tag() {
            Ok(TransactionPayloadId::ContractCall)
        } else {
            Err(ParserError::parser_invalid_transaction_payload)
        }
    }

    /// The byte that announces the kind.
    pub fn to_u8(self) -> (v: u8)
        ensures
            v == self.tag(),
    {
        match self {
            Self::TokenTransfer => 0,
            Self::SmartContract => 1,
            Self::ContractCall => 2,
        }
    }

    /// The kind that a byte announces.
    pub fn from_u8(v: u8) -> (res: Result<Self, ParserError>)
        ensures
            res == TransactionPayloadId::of_tag(v),
    {
        match v {
            0 => Ok(Self::TokenTransfer),
            1 => Ok(Self::SmartContract),
            2 => Ok(Self::ContractCall),
            _ => Err(ParserError::parser_invalid_transaction_payload),
        }
    }
}

/// A payload as its kind and its bytes, without the byte that announces the kind.
pub struct Payload {
    pub kind: TransactionPayloadId,
    pub bytes: Seq<u8>,
}

/// What the payload at the front of `b` is and what follows it, or why there is
/// none. Only a token transfer leaves anything over.
pub open spec fn payload_at(b: Seq<u8>, expert_mode: bool) -> Result<
    (Payload, Seq<u8>),
    ParserError,
> {
    if b.len() < 1 {
        Err(ParserError::parser_unexpected_buffer_end)
    } else {
        let body = b.skip(1);
        if b[0] == TransactionPayloadId::TokenTransfer.tag() {
            match token_transfer_len(body) {
                Ok(n) => Ok(
                    (
                        Payload {
                            kind: TransactionPayloadId::TokenTransfer,
                            bytes: body.take(n as int),
                        },
                        body.skip(n as int),
                    ),
                ),
                Err(e) => Err(e),
            }
        } else if b[0] == TransactionPayloadId::SmartContract.tag() {
            Ok(
                (
                    Payload { kind: TransactionPayloadId::SmartContract, bytes: body },
                    Seq::empty(),
                ),
            )
        } else if b[0] == TransactionPayloadId::ContractCall.tag() {
            match contract_call_error(body, expert_mode) {
                None => Ok(
                    (
                        Payload { kind: TransactionPayloadId::ContractCall, bytes: body },
                        Seq::empty(),
                    ),
                ),
                Some(e) => Err(e),
            }
        } else {
            Err(ParserError::parser_invalid_transaction_payload)
        }
    }
}

/// How many display items a payload of this kind has.
pub open spec fn item_count(kind: TransactionPayloadId) -> u8 {
    match kind {
        TransactionPayloadId::TokenTransfer => 3,
        TransactionPayloadId::SmartContract => 1,
        TransactionPayloadId::ContractCall => 3,
    }
}

/// The display items of a payload. Their numbers start over behind the last one.
pub open spec fn payload_item(payload: Payload, idx: u8) -> Option<Item> {
    let idx = idx % item_count(payload.kind);
    match payload.kind {
        TransactionPayloadId::TokenTransfer => token_item(payload.bytes, idx),
        TransactionPayloadId::SmartContract => smart_contract_item(payload.bytes, idx),
        TransactionPayloadId::ContractCall => call_item(payload.bytes, idx),
    }
}

/// The payload of a transaction.
#[derive(Debug, PartialEq)]
pub enum TransactionPayload<'a> {
    TokenTransfer(StxTokenTransfer<'a>),
    SmartContract(TransactionSmartContract<'a>),
    ContractCall(TransactionContractCall<'a>),
}

impl<'a> View for TransactionPayload<'a> {
    type V = Payload;

    open spec fn view(&self) -> Payload {
        match self {
            TransactionPayload::TokenTransfer(token) => Payload {
                kind: TransactionPayloadId::TokenTransfer,
                bytes: token@,
            },
            TransactionPayload::SmartContract(contract) => Payload {
                kind: TransactionPayloadId::SmartContract,
                bytes: contract@,
            },
            TransactionPayload::ContractCall(call) => Payload {
                kind: TransactionPayloadId::ContractCall,
                bytes: call@,
            },
        }
    }
}

impl<'a> Clone for TransactionPayload<'a> {
    fn clone(&self) -> (res: Self)
        ensures
            res@ == self@,
    {
        match self {
            TransactionPayload::TokenTransfer(token) => TransactionPayload::TokenTransfer(
                token.clone(),
            ),
            TransactionPayload::SmartContract(contract) => TransactionPayload::SmartContract(
                contract.clone(),
            ),
            TransactionPayload::ContractCall(call) => TransactionPayload::ContractCall(
                call.clone(),
            ),
        }
    }
}

impl<'a> TransactionPayload<'a> {
    /// Reads a payload off the front of `bytes`.
    pub fn from_bytes(bytes: &'a [u8], expert_mode: bool) -> (res: Result<
        (&'a [u8], Self),
        ParserError,
    >)
        ensures
            match payload_at(bytes@, expert_mode) {
                Ok((payload, left)) => res matches Ok((rest, parsed)) && parsed@ == payload
                    && rest@ == left,
                Err(e) => res matches Err(x) && x == e,
            },
    {
        let (body, id) = match le_u8(bytes) {
            Ok(found) => found,
            Err(_) => return Err(ParserError::parser_unexpected_buffer_end),
        };
        let kind = match TransactionPayloadId::from_u8(id) {
            Ok(kind) => kind,
            Err(e) => return Err(e),
        };
        match kind {
            TransactionPayloadId::TokenTransfer => match StxTokenTransfer::from_bytes(body) {
                Ok((rest, token)) => Ok((rest, Self::TokenTransfer(token))),
                Err(e) => Err(e),
            },
            TransactionPayloadId::SmartContract => match TransactionSmartContract::from_bytes(
                body,
            ) {
                Ok((rest, contract)) => Ok((rest, Self::SmartContract(contract))),
                Err(e) => Err(e),
            },
            TransactionPayloadId::ContractCall => match TransactionContractCall::from_bytes(
                body,
                expert_mode,
            ) {
                Ok((rest, call)) => Ok((rest, Self::ContractCall(call))),
                Err(e) => Err(e),
            },
        }
    }

    /// Whether this is a token transfer.
    pub fn is_token_transfer_payload(&self) -> (b: bool)
        ensures
            b == (self@.kind == TransactionPayloadId::TokenTransfer),
    {
        match self {
            Self::TokenTransfer(_) => true,
            _ => false,
        }
    }

    /// Whether this is the publication of a contract.
    pub fn is_smart_contract_payload(&self) -> (b: bool)
        ensures
            b == (self@.kind == TransactionPayloadId::SmartContract),
    {
        match self {
            Self::SmartContract(_) => true,
            _ => false,
        }
    }

    /// Whether this is a call of a contract.
    pub fn is_contract_call_payload(&self) -> (b: bool)
        ensures
            b == (self@.kind == TransactionPayloadId::ContractCall),
    {
        match self {
            Self::ContractCall(_) => true,
            _ => false,
        }
    }

    /// The name of the contract that is published or called.
    pub fn contract_name(&self) -> (res: Option<&[u8]>)
        ensures
            match self@.kind {
                TransactionPayloadId::TokenTransfer => res is None,
                TransactionPayloadId::SmartContract => match smart_contract_name(self@.bytes) {
                    Ok(text) => res matches Some(name) && name@ == text,
                    Err(_) => res is None,
                },
                TransactionPayloadId::ContractCall => res matches Some(name) && name@
                    == call_contract_name(self@.bytes),
            },
    {
        match self {
            Self::SmartContract(contract) => match contract.contract_name() {
                Ok(name) => Some(name),
                Err(_) => None,
            },
            Self::ContractCall(contract) => match contract.contract_name() {
                Ok(name) => Some(name),
                Err(_) => None,
            },
            _ => None,
        }
    }

    /// The name of the function that is called.
    pub fn function_name(&self) -> (res: Option<&[u8]>)
        ensures
            match self@.kind {
                TransactionPayloadId::ContractCall => res matches Some(name) && name@
                    == call_function_name(self@.bytes),
                _ => res is None,
            },
    {
        match self {
            Self::ContractCall(contract) => match contract.function_name() {
                Ok(name) => Some(name),
                Err(_) => None,
            },
            _ => None,
        }
    }

    /// The number of arguments of a call. Outside of expert mode there is none
    /// where they are too many.
    pub fn num_args(&self, expert_mode: bool) -> (res: Option<u32>)
        ensures
            match res {
                Some(n) => self@.kind == TransactionPayloadId::ContractCall && n == args_count(
                    call_args(self@.bytes),
                ) && (expert_mode || n <= MAX_NUM_ARGS),
                None => self@.kind == TransactionPayloadId::ContractCall ==> !expert_mode
                    && args_count(call_args(self@.bytes)) > MAX_NUM_ARGS,
            },
    {
        match self {
            Self::ContractCall(contract) => match contract.num_args(expert_mode) {
                Ok(n) => Some(n),
                Err(_) => None,
            },
            _ => None,
        }
    }

    /// The amount of a token transfer.
    pub fn amount(&self) -> (res: Option<u64>)
        ensures
            match self@.kind {
                TransactionPayloadId::TokenTransfer => res matches Some(amount) && amount
                    == token_amount(self@.bytes),
                _ => res is None,
            },
    {
        match self {
            Self::TokenTransfer(token) => match token.amount() {
                Ok(amount) => Some(amount),
                Err(_) => None,
            },
            _ => None,
        }
    }

    /// The message of a token transfer.
    pub fn memo(&self) -> (res: Option<&[u8]>)
        ensures
            match self@.kind {
                TransactionPayloadId::TokenTransfer => res matches Some(memo) && memo@
                    == token_memo(self@.bytes),
                _ => res is None,
            },
    {
        match self {
            Self::TokenTransfer(token) => Some(token.memo()),
            _ => None,
        }
    }

    /// The address of the recipient of a token transfer.
    pub fn recipient_address(&self) -> (res: Option<AddressText>)
        ensures
            match res {
                Some(address) => self@.kind == TransactionPayloadId::TokenTransfer && token_address(
                    self@.bytes,
                ) == Ok::<Seq<u8>, ParserError>(address@),
                None => self@.kind == TransactionPayloadId::TokenTransfer ==> token_address(
                    self@.bytes,
                ) is Err,
            },
    {
        match self {
            Self::TokenTransfer(token) => match token.encoded_address() {
                Ok(address) => Some(address),
                Err(_) => None,
            },
            _ => None,
        }
    }

    /// The address of the contract that is called.
    pub fn contract_address(&self) -> (res: Option<AddressText>)
        ensures
            match res {
                Some(address) => self@.kind == TransactionPayloadId::ContractCall && call_address(
                    self@.bytes,
                ) == Ok::<Seq<u8>, ParserError>(address@),
                None => self@.kind == TransactionPayloadId::ContractCall ==> call_address(
                    self@.bytes,
                ) is Err,
            },
    {
        match self {
            Self::ContractCall(call) => match call.contract_address() {
                Ok(address) => Some(address),
                Err(_) => None,
            },
            _ => None,
        }
    }

    /// The number of display items.
    pub fn num_items(&self) -> (n: u8)
        ensures
            n == item_count(self@.kind),
    {
        match self {
            Self::TokenTransfer(_) => 3,
            Self::SmartContract(_) => 1,
            Self::ContractCall(_) => 3,
        }
    }

    /// Shows page `page_idx` of display item `display_idx`, and returns the number
    /// of pages that the item has.
    pub fn get_items(
        &self,
        display_idx: u8,
        out_key: &mut [u8],
        out_value: &mut [u8],
        page_idx: u8,
    ) -> (res: Result<u8, ParserError>)
        ensures
            payload_item(self@, display_idx) matches Some(item) && (Shown {
                result: res,
                key: final(out_key)@,
                value: final(out_value)@,
            }) == shown(item, old(out_key)@, old(out_value)@, page_idx),
            res matches Err(e) ==> {
                ||| e == ParserError::parser_unexpected_buffer_end
                ||| e == ParserError::parser_invalid_address_version
                ||| e == ParserError::parser_invalid_contract_name
            },
    {
        let idx = display_idx % self.num_items();
        match self {
            Self::TokenTransfer(token) => token.get_token_transfer_items(
                idx,
                out_key,
                out_value,
                page_idx,
            ),
            Self::SmartContract(contract) => contract.get_contract_items(
                idx,
                out_key,
                out_value,
                page_idx,
            ),
            Self::ContractCall(call) => call.get_contract_call_items(
                idx,
                out_key,
                out_value,
                page_idx,
            ),
        }
    }
}

} // verus!
