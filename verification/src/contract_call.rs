//! A call of a function of a contract.

use crate::c32::{c32_address, c32_address_text};
use crate::display::{refused, shown, Item, Shown};
use crate::error::ParserError;
use crate::input::{be_u32, be_value, take};
use crate::parser_common::{
    address_len, after_name, name_len, name_text, ClarityName, ContractName, StacksAddress,
    HASH160_LEN, MAX_STRING_LEN,
};
use crate::text::{AddressText, C32_ENCODED_ADDRS_LENGTH};
use crate::zxformat::{page_string, write_str};
use vstd::prelude::*;

verus! {

/// The most arguments of a call, outside of expert mode.
pub const MAX_NUM_ARGS: u32 = 10;

/// The number of arguments that `b` announces.
pub open spec fn args_count(b: Seq<u8>) -> nat {
    be_value(b.take(4))
}

/// Why `b` cannot be the arguments of a call, or `None` where it can: there has
/// to be a count, and outside of expert mode the count is limited.
pub open spec fn args_error(b: Seq<u8>, expert_mode: bool) -> Option<ParserError> {
    if b.len() < 4 {
        Some(ParserError::parser_unexpected_buffer_end)
    } else if args_count(b) > MAX_NUM_ARGS && !expert_mode {
        Some(ParserError::parser_invalid_transaction_payload)
    } else {
        None
    }
}

/// The arguments of a call.
#[derive(Debug, PartialEq)]
pub struct Arguments<'a>(&'a [u8]);

impl<'a> View for Arguments<'a> {
    type V = Seq<u8>;

    closed spec fn view(&self) -> Seq<u8> {
        self.0@
    }
}

impl<'a> Clone for Arguments<'a> {
    fn clone(&self) -> (res: Self)
        ensures
            res@ == self@,
    {
        proof {
            use_type_invariant(self);
        }
        Arguments(self.0)
    }
}

impl<'a> Arguments<'a> {
    #[verifier::type_invariant]
    closed spec fn well_formed(self) -> bool {
        self.0@.len() >= 4
    }

    /// Takes all of `bytes` as the arguments of a call: the count and the values.
    pub fn from_bytes(bytes: &'a [u8], expert_mode: bool) -> (res: Result<
        (&'a [u8], Self),
        ParserError,
    >)
        ensures
            match args_error(bytes@, expert_mode) {
                None => res matches Ok((rest, args)) && args@ == bytes@ && rest@ == Seq::<
                    u8,
                >::empty(),
                Some(e) => res matches Err(x) && x == e,
            },
    {
        let len = match be_u32(bytes) {
            Ok((_, len)) => len,
            Err(_) => return Err(ParserError::parser_unexpected_buffer_end),
        };
        if len > MAX_NUM_ARGS && !expert_mode {
            return Err(ParserError::parser_invalid_transaction_payload);
        }
        // All that is left are the values of the arguments and nothing else.
        match take(bytes.len(), bytes) {
            Ok((rest, args)) => {
                assert(args@ =~= bytes@);
                assert(rest@ =~= Seq::<u8>::empty());
                Ok((rest, Arguments(args)))
            },
            Err(_) => Err(ParserError::parser_unexpected_buffer_end),
        }
    }

    /// The number of arguments.
    pub fn num_args(&self) -> (res: Result<u32, ParserError>)
        ensures
            res matches Ok(n) && n == args_count(self@),
    {
        proof {
            use_type_invariant(self);
        }
        match be_u32(self.0) {
            Ok((_, n)) => Ok(n),
            Err(_) => Err(ParserError::parser_unexpected_error),
        }
    }
}

/// The part of a call behind the address of the contract: the two names, then
/// the arguments.
pub open spec fn call_names(b: Seq<u8>) -> Seq<u8> {
    b.skip(address_len() as int)
}

/// The name of the contract that is called.
pub open spec fn call_contract_name(b: Seq<u8>) -> Seq<u8> {
    name_text(call_names(b))
}

/// The name of the function that is called.
pub open spec fn call_function_name(b: Seq<u8>) -> Seq<u8> {
    name_text(after_name(call_names(b)))
}

/// The arguments of a call.
pub open spec fn call_args(b: Seq<u8>) -> Seq<u8> {
    after_name(after_name(call_names(b)))
}

/// Two names stand at the front of `b`.
pub open spec fn has_two_names(b: Seq<u8>) -> bool {
    name_len(b) is Ok && name_len(after_name(b)) is Ok
}

/// Why `b` cannot be a call, or `None` where it can.
pub open spec fn contract_call_error(b: Seq<u8>, expert_mode: bool) -> Option<ParserError> {
    if b.len() < address_len() {
        Some(ParserError::parser_unexpected_buffer_end)
    } else if !has_two_names(call_names(b)) {
        Some(ParserError::parser_unexpected_type)
    } else {
        args_error(call_args(b), expert_mode)
    }
}

/// `b` is a call, with any number of arguments.
pub open spec fn is_contract_call(b: Seq<u8>) -> bool {
    contract_call_error(b, true) is None
}

/// The address of the contract as text.
pub open spec fn call_address(b: Seq<u8>) -> Result<Seq<u8>, ParserError> {
    if b[0] < 32 {
        Ok(c32_address_text(b[0], b.subrange(1, 21)))
    } else {
        Err(ParserError::parser_invalid_address_version)
    }
}

/// The display items of a call.
pub open spec fn call_item(b: Seq<u8>, idx: u8) -> Option<Item> {
    if idx == 0 {
        Some(Item { label: "Contract address"@, text: call_address(b) })
    } else if idx == 1 {
        Some(Item { label: "Contract name"@, text: Ok(call_contract_name(b)) })
    } else if idx == 2 {
        Some(Item { label: "Function name"@, text: Ok(call_function_name(b)) })
    } else {
        None
    }
}

/// Reads the name of a contract and the name of a function. They may come in any
/// order, but both are read by the same rule, so that the first one always reads
/// as that of the contract. One error stands for all that can go wrong.
fn read_two_names<'a>(bytes: &'a [u8]) -> (res: Result<
    (&'a [u8], (ContractName<'a>, ClarityName<'a>)),
    ParserError,
>)
    ensures
        match res {
            Ok((rest, (contract, function))) => {
                &&& has_two_names(bytes@)
                &&& contract.0@ == name_text(bytes@)
                &&& function.0@ == name_text(after_name(bytes@))
                &&& rest@ == after_name(after_name(bytes@))
            },
            Err(e) => !has_two_names(bytes@) && e == ParserError::parser_unexpected_type,
        },
{
    match ContractName::from_bytes(bytes) {
        Ok((rest, contract)) => match ClarityName::from_bytes(rest) {
            Ok((rest, function)) => Ok((rest, (contract, function))),
            Err(_) => Err(ParserError::parser_unexpected_type),
        },
        Err(_) => Err(ParserError::parser_unexpected_type),
    }
}

/// A transaction that calls into a contract.
#[derive(Debug, PartialEq)]
pub struct TransactionContractCall<'a>(&'a [u8]);

impl<'a> View for TransactionContractCall<'a> {
    type V = Seq<u8>;

    closed spec fn view(&self) -> Seq<u8> {
        self.0@
    }
}

impl<'a> Clone for TransactionContractCall<'a> {
    fn clone(&self) -> (res: Self)
        ensures
            res@ == self@,
    {
        proof {
            use_type_invariant(self);
        }
        TransactionContractCall(self.0)
    }
}

impl<'a> TransactionContractCall<'a> {
    #[verifier::type_invariant]
    closed spec fn well_formed(self) -> bool {
        is_contract_call(self.0@)
    }

    /// Takes all of `bytes` as a call.
    pub fn from_bytes(bytes: &'a [u8], expert_mode: bool) -> (res: Result<
        (&'a [u8], Self),
        ParserError,
    >)
        ensures
            match contract_call_error(bytes@, expert_mode) {
                None => res matches Ok((rest, call)) && call@ == bytes@ && rest@ == Seq::<
                    u8,
                >::empty(),
                Some(e) => res matches Err(x) && x == e,
            },
    {
        let raw = match StacksAddress::from_bytes(bytes) {
            Ok((raw, _)) => raw,
            Err(e) => return Err(e),
        };
        let raw2 = match read_two_names(raw) {
            Ok((raw2, _)) => raw2,
            Err(e) => return Err(e),
        };
        let leftover = match Arguments::from_bytes(raw2, expert_mode) {
            Ok((leftover, _)) => leftover,
            Err(e) => return Err(e),
        };
        let len: usize = bytes.len() - leftover.len();
        match take(len, bytes) {
            Ok((_, data)) => {
                assert(data@ =~= bytes@);
                Ok((leftover, TransactionContractCall(data)))
            },
            Err(_) => Err(ParserError::parser_unexpected_buffer_end),
        }
    }

    /// The part behind the address.
    fn names(&self) -> (names: &'a [u8])
        ensures
            names@ == call_names(self@),
            is_contract_call(self@),
    {
        proof {
            use_type_invariant(self);
        }
        let names = &self.0[HASH160_LEN + 1..self.0.len()];
        assert(names@ =~= call_names(self@));
        names
    }

    /// The name of the contract.
    pub fn contract_name(&self) -> (res: Result<&[u8], ParserError>)
        ensures
            res matches Ok(name) && name@ == call_contract_name(self@) && name@.len()
                <= MAX_STRING_LEN,
    {
        match ContractName::from_bytes(self.names()) {
            Ok((_, name)) => Ok(name.0),
            Err(_) => Err(ParserError::parser_invalid_contract_name),
        }
    }

    /// The name of the function.
    pub fn function_name(&self) -> (res: Result<&[u8], ParserError>)
        ensures
            res matches Ok(name) && name@ == call_function_name(self@) && name@.len()
                <= MAX_STRING_LEN,
    {
        let rest = match ContractName::from_bytes(self.names()) {
            Ok((rest, _)) => rest,
            Err(_) => return Err(ParserError::parser_unexpected_error),
        };
        match ClarityName::from_bytes(rest) {
            Ok((_, name)) => Ok(name.0),
            Err(_) => Err(ParserError::parser_unexpected_error),
        }
    }

    /// The arguments, which outside of expert mode must not be too many.
    pub fn function_args(&self, expert_mode: bool) -> (res: Result<Arguments<'_>, ParserError>)
        ensures
            match res {
                Ok(args) => args@ == call_args(self@) && (expert_mode || args_count(
                    call_args(self@),
                ) <= MAX_NUM_ARGS),
                Err(e) => !expert_mode && args_count(call_args(self@)) > MAX_NUM_ARGS && e
                    == ParserError::parser_invalid_argument_id,
            },
    {
        let rest = match ContractName::from_bytes(self.names()) {
            Ok((rest, _)) => rest,
            Err(_) => return Err(ParserError::parser_invalid_argument_id),
        };
        let rest = match ClarityName::from_bytes(rest) {
            Ok((rest, _)) => rest,
            Err(_) => return Err(ParserError::parser_invalid_argument_id),
        };
        match Arguments::from_bytes(rest, expert_mode) {
            Ok((_, args)) => Ok(args),
            Err(_) => Err(ParserError::parser_invalid_argument_id),
        }
    }

    /// The number of arguments, which outside of expert mode must not be too many.
    pub fn num_args(&self, expert_mode: bool) -> (res: Result<u32, ParserError>)
        ensures
            match res {
                Ok(n) => n == args_count(call_args(self@)) && (expert_mode || n <= MAX_NUM_ARGS),
                Err(e) => !expert_mode && args_count(call_args(self@)) > MAX_NUM_ARGS && e
                    == ParserError::parser_invalid_argument_id,
            },
    {
        match self.function_args(expert_mode) {
            Ok(args) => args.num_args(),
            Err(e) => Err(e),
        }
    }

    /// The address of the contract as text.
    pub fn contract_address(&self) -> (res: Result<AddressText, ParserError>)
        ensures
            match call_address(self@) {
                Ok(text) => res matches Ok(address) && address@ == text && text.len()
                    <= C32_ENCODED_ADDRS_LENGTH,
                Err(e) => res matches Err(x) && x == e,
            },
    {
        proof {
            use_type_invariant(self);
        }
        let version = self.0[0];
        c32_address(version, &self.0[1..21])
    }

    /// The number of display items.
    pub fn num_items(&self) -> (n: u8)
        ensures
            n == 3,
            forall|idx: u8| idx < n <==> #[trigger] call_item(self@, idx) is Some,
    {
        // The address, the name of the contract and the name of the function.
        3
    }

    /// Shows page `page_idx` of display item `display_idx`.
    pub fn get_contract_call_items(
        &self,
        display_idx: u8,
        out_key: &mut [u8],
        out_value: &mut [u8],
        page_idx: u8,
    ) -> (res: Result<u8, ParserError>)
        ensures
            (Shown { result: res, key: final(out_key)@, value: final(out_value)@ }) == (
            match call_item(self@, display_idx) {
                Some(item) => shown(item, old(out_key)@, old(out_value)@, page_idx),
                None => refused(
                    ParserError::parser_value_out_of_range,
                    old(out_key)@,
                    old(out_value)@,
                ),
            }),
            res != Err::<u8, ParserError>(ParserError::parser_display_page_out_of_range),
    {
        match display_idx {
            // The address of the contract.
            0 => {
                match write_str(out_key, "Contract address") {
                    Ok(_) => {},
                    Err(e) => return Err(e),
                }
                match self.contract_address() {
                    Ok(address) => page_string(out_value, address.as_slice(), page_idx),
                    Err(e) => Err(e),
                }
            },
            // The name of the contract.
            1 => {
                match write_str(out_key, "Contract name") {
                    Ok(_) => {},
                    Err(e) => return Err(e),
                }
                match self.contract_name() {
                    Ok(name) => page_string(out_value, name, page_idx),
                    Err(e) => Err(e),
                }
            },
            // The name of the function.
            2 => {
                match write_str(out_key, "Function name") {
                    Ok(_) => {},
                    Err(e) => return Err(e),
                }
                match self.function_name() {
                    Ok(name) => page_string(out_value, name, page_idx),
                    Err(e) => Err(e),
                }
            },
            _ => Err(ParserError::parser_value_out_of_range),
        }
    }
}

} // verus!
