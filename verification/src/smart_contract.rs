//! The publication of a contract.

use crate::display::{refused, shown, Item, Shown};
use crate::error::ParserError;
use crate::parser_common::{name_len, name_text, ContractName};
use crate::zxformat::{page_string, write_str};
use vstd::prelude::*;

verus! {

/// The name of the contract, or why it cannot be read.
pub open spec fn smart_contract_name(b: Seq<u8>) -> Result<Seq<u8>, ParserError> {
    if name_len(b) is Ok {
        Ok(name_text(b))
    } else {
        Err(ParserError::parser_invalid_contract_name)
    }
}

/// The display items of a publication.
pub open spec fn smart_contract_item(b: Seq<u8>, idx: u8) -> Option<Item> {
    if idx == 0 {
        Some(Item { label: "Contract Name"@, text: smart_contract_name(b) })
    } else {
        None
    }
}

/// A transaction that instantiates a contract.
#[derive(Debug, PartialEq)]
pub struct TransactionSmartContract<'a>(&'a [u8]);

impl<'a> View for TransactionSmartContract<'a> {
    type V = Seq<u8>;

    closed spec fn view(&self) -> Seq<u8> {
        self.0@
    }
}

impl<'a> Clone for TransactionSmartContract<'a> {
    fn clone(&self) -> (res: Self)
        ensures
            res@ == self@,
    {
        TransactionSmartContract(self.0)
    }
}

impl<'a> TransactionSmartContract<'a> {
    /// Takes all of `bytes`, which hold the name and the body of the contract.
    pub fn from_bytes(bytes: &'a [u8]) -> (res: Result<(&'a [u8], Self), ParserError>)
        ensures
            res matches Ok((rest, contract)) && contract@ == bytes@ && rest@ == Seq::<u8>::empty(),
    {
        let rest = &bytes[0..0];
        assert(rest@ =~= Seq::<u8>::empty());
        Ok((rest, TransactionSmartContract(bytes)))
    }

    /// The name of the contract.
    pub fn contract_name(&self) -> (res: Result<&[u8], ParserError>)
        ensures
            match smart_contract_name(self@) {
                Ok(text) => res matches Ok(name) && name@ == text,
                Err(e) => res matches Err(x) && x == e,
            },
    {
        match ContractName::from_bytes(self.0) {
            Ok((_, name)) => Ok(name.0),
            Err(_) => Err(ParserError::parser_invalid_contract_name),
        }
    }

    /// Shows page `page_idx` of display item `display_idx`.
    pub fn get_contract_items(
        &self,
        display_idx: u8,
        out_key: &mut [u8],
        out_value: &mut [u8],
        page_idx: u8,
    ) -> (res: Result<u8, ParserError>)
        ensures
            (Shown { result: res, key: final(out_key)@, value: final(out_value)@ }) == (
            match smart_contract_item(self@, display_idx) {
                Some(item) => shown(item, old(out_key)@, old(out_value)@, page_idx),
                None => refused(
                    ParserError::parser_value_out_of_range,
                    old(out_key)@,
                    old(out_value)@,
                ),
            }),
            res != Err::<u8, ParserError>(ParserError::parser_display_page_out_of_range),
    {
        match display_idx {
            0 => {
                match write_str(out_key, "Contract Name") {
                    Ok(_) => {},
                    Err(e) => return Err(e),
                }
                match self.contract_name() {
                    Ok(name) => page_string(out_value, name, page_idx),
                    Err(e) => Err(e),
                }
            },
            _ => Err(ParserError::parser_value_out_of_range),
        }
    }
}

} // verus!
