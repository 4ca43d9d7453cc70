//! The fields that the payloads share: names, addresses and principals.

use crate::error::ParserError;
use crate::input::{le_u8, take};
use vstd::prelude::*;

verus! {

/// The length of the hash in an address.
pub const HASH160_LEN: usize = 20;

/// The longest name, in bytes.
pub const MAX_STRING_LEN: u8 = 128;

/// The length of the name at the front of `b`: one byte that gives the length,
/// then the name itself. The error says why there is none.
pub open spec fn name_len(b: Seq<u8>) -> Result<nat, ParserError> {
    if b.len() < 1 {
        Err(ParserError::parser_unexpected_buffer_end)
    } else if b[0] > MAX_STRING_LEN {
        Err(ParserError::parser_value_out_of_range)
    } else if b.len() < 1 + b[0] {
        Err(ParserError::parser_unexpected_buffer_end)
    } else {
        Ok(b[0] as nat)
    }
}

/// The name at the front of `b`.
pub open spec fn name_text(b: Seq<u8>) -> Seq<u8> {
    b.subrange(1, 1 + b[0])
}

/// What follows the name at the front of `b`.
pub open spec fn after_name(b: Seq<u8>) -> Seq<u8> {
    b.skip(1 + b[0])
}

/// The bytes that stand for `name`.
pub open spec fn encode_name(name: Seq<u8>) -> Seq<u8> {
    seq![name.len() as u8] + name
}

/// What an encoded name reads as, whatever follows it.
pub proof fn lemma_encode_name(name: Seq<u8>, tail: Seq<u8>)
    requires
        name.len() <= MAX_STRING_LEN,
    ensures
        name_len(encode_name(name) + tail) == Ok::<nat, ParserError>(name.len()),
        name_text(encode_name(name) + tail) == name,
        after_name(encode_name(name) + tail) == tail,
{
    let b = encode_name(name) + tail;
    assert(b[0] == name.len());
    assert(name_text(b) =~= name);
    assert(after_name(b) =~= tail);
}

/// Reads one byte that is at most `limit`.
pub fn u8_with_limits<'a>(limit: u8, bytes: &'a [u8]) -> (res: Result<(&'a [u8], u8), ParserError>)
    ensures
        match res {
            Ok((rest, v)) => bytes@.len() >= 1 && v == bytes@[0] && v <= limit && rest@
                == bytes@.skip(1),
            Err(e) => if bytes@.len() == 0 {
                e == ParserError::parser_unexpected_buffer_end
            } else {
                bytes@[0] > limit && e == ParserError::parser_value_out_of_range
            },
        },
{
    match le_u8(bytes) {
        Ok((rest, v)) => {
            if v <= limit {
                Ok((rest, v))
            } else {
                Err(ParserError::parser_value_out_of_range)
            }
        },
        Err(_) => Err(ParserError::parser_unexpected_buffer_end),
    }
}

/// Reads a length and then that many bytes.
fn read_name<'a>(bytes: &'a [u8]) -> (res: Result<(&'a [u8], &'a [u8]), ParserError>)
    ensures
        match name_len(bytes@) {
            Ok(n) => res matches Ok((rest, name)) && name@ == name_text(bytes@) && rest@
                == after_name(bytes@),
            Err(e) => res matches Err(x) && x == e,
        },
{
    let (rest, len) = match u8_with_limits(MAX_STRING_LEN, bytes) {
        Ok(found) => found,
        Err(e) => return Err(e),
    };
    match take(len as usize, rest) {
        Ok((rest, name)) => {
            assert(name@ =~= name_text(bytes@));
            assert(rest@ =~= after_name(bytes@));
            Ok((rest, name))
        },
        Err(_) => Err(ParserError::parser_unexpected_buffer_end),
    }
}

/// The name of a contract.
#[derive(Debug, Clone, Copy, PartialEq)]
pub struct ContractName<'a>(pub &'a [u8]);

impl<'a> ContractName<'a> {
    /// Reads a contract name off the front of `bytes`.
    pub fn from_bytes(bytes: &'a [u8]) -> (res: Result<(&'a [u8], Self), ParserError>)
        ensures
            match name_len(bytes@) {
                Ok(n) => res matches Ok((rest, name)) && name.0@ == name_text(bytes@) && rest@
                    == after_name(bytes@),
                Err(e) => res matches Err(x) && x == e,
            },
    {
        match read_name(bytes) {
            Ok((rest, name)) => Ok((rest, Self(name))),
            Err(e) => Err(e),
        }
    }
}

/// The name of a function of a contract.
#[derive(Debug, Clone, Copy, PartialEq)]
pub struct ClarityName<'a>(pub &'a [u8]);

impl<'a> ClarityName<'a> {
    /// Reads a function name off the front of `bytes`.
    pub fn from_bytes(bytes: &'a [u8]) -> (res: Result<(&'a [u8], Self), ParserError>)
        ensures
            match name_len(bytes@) {
                Ok(n) => res matches Ok((rest, name)) && name.0@ == name_text(bytes@) && rest@
                    == after_name(bytes@),
                Err(e) => res matches Err(x) && x == e,
            },
    {
        match read_name(bytes) {
            Ok((rest, name)) => Ok((rest, Self(name))),
            Err(e) => Err(e),
        }
    }
}

/// The length of an address: a version byte and a hash.
pub open spec fn address_len() -> nat {
    1 + HASH160_LEN as nat
}

/// An address: its version, and the hash that it stands for.
#[derive(Debug, Clone, Copy, PartialEq)]
pub struct StacksAddress<'a>(pub u8, pub &'a [u8]);

impl<'a> StacksAddress<'a> {
    /// Reads an address off the front of `bytes`.
    pub fn from_bytes(bytes: &'a [u8]) -> (res: Result<(&'a [u8], Self), ParserError>)
        ensures
            match res {
                Ok((rest, address)) => bytes@.len() >= address_len() && address.0 == bytes@[0]
                    && address.1@ == bytes@.subrange(1, address_len() as int) && rest@
                    == bytes@.skip(address_len() as int),
                Err(e) => bytes@.len() < address_len() && e
                    == ParserError::parser_unexpected_buffer_end,
            },
    {
        let (rest, version) = match le_u8(bytes) {
            Ok(found) => found,
            Err(_) => return Err(ParserError::parser_unexpected_buffer_end),
        };
        match take(HASH160_LEN, rest) {
            Ok((rest, hash)) => {
                assert(hash@ =~= bytes@.subrange(1, address_len() as int));
                assert(rest@ =~= bytes@.skip(address_len() as int));
                Ok((rest, Self(version, hash)))
            },
            Err(_) => Err(ParserError::parser_unexpected_buffer_end),
        }
    }
}

/// The length of the contract principal at the front of `b`: an address, then
/// the name of a contract.
pub open spec fn contract_principal_len(b: Seq<u8>) -> Result<nat, ParserError> {
    if b.len() < address_len() {
        Err(ParserError::parser_unexpected_buffer_end)
    } else {
        match name_len(b.skip(address_len() as int)) {
            Ok(n) => Ok(address_len() + 1 + n),
            Err(e) => Err(e),
        }
    }
}

/// Who receives a token transfer: an address, or a contract at an address.
#[derive(Debug, Clone, Copy, PartialEq)]
pub enum PrincipalData<'a> {
    Standard(StacksAddress<'a>),
    Contract(StacksAddress<'a>, ContractName<'a>),
}

impl<'a> PrincipalData<'a> {
    /// Reads a principal that is an address.
    pub fn standard_from_bytes(bytes: &'a [u8]) -> (res: Result<(&'a [u8], Self), ParserError>)
        ensures
            match res {
                Ok((rest, principal)) => {
                    &&& bytes@.len() >= address_len()
                    &&& principal matches PrincipalData::Standard(address)
                    &&& address.0 == bytes@[0]
                    &&& address.1@ == bytes@.subrange(1, address_len() as int)
                    &&& rest@ == bytes@.skip(address_len() as int)
                },
                Err(e) => bytes@.len() < address_len() && e
                    == ParserError::parser_unexpected_buffer_end,
            },
    {
        match StacksAddress::from_bytes(bytes) {
            Ok((rest, address)) => Ok((rest, PrincipalData::Standard(address))),
            Err(e) => Err(e),
        }
    }

    /// Reads a principal that is a contract.
    pub fn contract_principal_from_bytes(bytes: &'a [u8]) -> (res: Result<
        (&'a [u8], Self),
        ParserError,
    >)
        ensures
            match contract_principal_len(bytes@) {
                Ok(n) => {
                    &&& res matches Ok((rest, principal))
                    &&& principal matches PrincipalData::Contract(address, name)
                    &&& address.0 == bytes@[0]
                    &&& address.1@ == bytes@.subrange(1, address_len() as int)
                    &&& name.0@ == name_text(bytes@.skip(address_len() as int))
                    &&& rest@ == bytes@.skip(n as int)
                },
                Err(e) => res matches Err(x) && x == e,
            },
    {
        let (rest, address) = match StacksAddress::from_bytes(bytes) {
            Ok(found) => found,
            Err(e) => return Err(e),
        };
        match ContractName::from_bytes(rest) {
            Ok((left, name)) => {
                assert(left@ =~= bytes@.skip(contract_principal_len(bytes@)->Ok_0 as int));
                Ok((left, PrincipalData::Contract(address, name)))
            },
            Err(e) => Err(e),
        }
    }
}

} // verus!
