//! A transfer of tokens to an address or to a contract.

use crate::c32::{c32_address, c32_address_text};
use crate::display::{refused, shown, Item, Shown};
use crate::error::ParserError;
use crate::input::{be_u64, be_value, le_u8, take};
use crate::parser_common::{address_len, contract_principal_len, PrincipalData};
use crate::text::{AddressText, AmountText, C32_ENCODED_ADDRS_LENGTH, MAX_STR_BUFF_LEN};
use crate::zxformat::{decimal, lemma_decimal_len_u64, page_string, u64_to_str, write_str};
use vstd::prelude::*;

verus! {

/// The length of the message that goes with a transfer.
pub const MEMO_LEN: usize = 34;

/// The length of the amount of a transfer.
pub const AMOUNT_LEN: usize = 8;

/// The kinds of recipients. `to_u8` gives the byte that announces a kind; a cast
/// with `as` only numbers the variants from zero and does not give it.
#[derive(Debug, Clone, Copy, PartialEq, Eq, Structural)]
pub enum TokenTranferPrincipal {
    Standard,
    Contract,
}

impl TokenTranferPrincipal {
    /// The byte that announces the kind.
    pub open spec fn tag(self) -> u8 {
        match self {
            TokenTranferPrincipal::Standard => 5,
            TokenTranferPrincipal::Contract => 6,
        }
    }

    /// The kind that a byte announces, if any.
    pub open spec fn of_tag(v: u8) -> Result<Self, ParserError> {
        if v == TokenTranferPrincipal::Standard.tag() {
            Ok(TokenTranferPrincipal::Standard)
        } else if v == TokenTranferPrincipal::Contract.tag() {
            Ok(TokenTranferPrincipal::Contract)
        } else {
            Err(ParserError::parser_invalid_token_transfer_principal)
        }
    }

    /// The byte that announces the kind.
    pub fn to_u8(self) -> (v: u8)
        ensures
            v == self.tag(),
    {
        match self {
            Self::Standard => 5,
            Self::Contract => 6,
        }
    }

    /// The kind that a byte announces.
    pub fn from_u8(v: u8) -> (res: Result<Self, ParserError>)
        ensures
            res == TokenTranferPrincipal::of_tag(v),
    {
        match v {
            5 => Ok(Self::Standard),
            6 => Ok(Self::Contract),
            _ => Err(ParserError::parser_invalid_token_transfer_principal),
        }
    }
}

/// The length of the recipient at the front of `b`: a byte for its kind, then
/// the principal.
pub open spec fn recipient_len(b: Seq<u8>) -> Result<nat, ParserError> {
    if b.len() < 1 {
        Err(ParserError::parser_unexpected_buffer_end)
    } else if b[0] == TokenTranferPrincipal::Standard.tag() {
        if b.len() < 1 + address_len() {
            Err(ParserError::parser_unexpected_buffer_end)
        } else {
            Ok(1 + address_len())
        }
    } else if b[0] == TokenTranferPrincipal::Contract.tag() {
        match contract_principal_len(b.skip(1)) {
            Ok(n) => Ok(1 + n),
            Err(e) => Err(e),
        }
    } else {
        Err(ParserError::parser_invalid_token_transfer_principal)
    }
}

/// The length of the transfer at the front of `b`: a recipient, an amount and a
/// message.
pub open spec fn token_transfer_len(b: Seq<u8>) -> Result<nat, ParserError> {
    match recipient_len(b) {
        Ok(n) => if b.len() < n + AMOUNT_LEN + MEMO_LEN {
            Err(ParserError::parser_unexpected_buffer_end)
        } else {
            Ok(n + AMOUNT_LEN as nat + MEMO_LEN as nat)
        },
        Err(e) => Err(e),
    }
}

/// `b` is one transfer and nothing else.
pub open spec fn is_token_transfer(b: Seq<u8>) -> bool {
    token_transfer_len(b) == Ok::<nat, ParserError>(b.len())
}

/// The message of a transfer.
pub open spec fn token_memo(b: Seq<u8>) -> Seq<u8> {
    b.skip(b.len() - MEMO_LEN)
}

/// The amount of a transfer.
pub open spec fn token_amount(b: Seq<u8>) -> nat {
    be_value(b.subrange(b.len() - MEMO_LEN - AMOUNT_LEN, b.len() - MEMO_LEN))
}

/// The hash in the address of the recipient.
pub open spec fn token_hash(b: Seq<u8>) -> Seq<u8> {
    b.subrange(2, 22)
}

/// The version of the address of the recipient.
pub open spec fn token_version(b: Seq<u8>) -> u8 {
    b[1]
}

/// The address of the recipient as text.
pub open spec fn token_address(b: Seq<u8>) -> Result<Seq<u8>, ParserError> {
    if token_version(b) < 32 {
        Ok(c32_address_text(token_version(b), token_hash(b)))
    } else {
        Err(ParserError::parser_invalid_address_version)
    }
}

/// The display items of a transfer.
pub open spec fn token_item(b: Seq<u8>, idx: u8) -> Option<Item> {
    if idx == 0 {
        Some(Item { label: "Amount uSTX"@, text: Ok(decimal(token_amount(b))) })
    } else if idx == 1 {
        Some(Item { label: "To"@, text: token_address(b) })
    } else if idx == 2 {
        Some(Item { label: "Memo"@, text: Ok(token_memo(b)) })
    } else {
        None
    }
}

/// A transfer stays one when what follows it is cut off.
pub proof fn lemma_token_transfer_prefix(b: Seq<u8>)
    requires
        token_transfer_len(b) is Ok,
    ensures
        token_transfer_len(b)->Ok_0 <= b.len(),
        is_token_transfer(b.take(token_transfer_len(b)->Ok_0 as int)),
{
    let t = b.take(token_transfer_len(b)->Ok_0 as int);
    let at = address_len() as int;
    assert(t[0] == b[0]);
    if b[0] == TokenTranferPrincipal::Contract.tag() {
        assert(t.skip(1).skip(at)[0] == b.skip(1).skip(at)[0]);
    }
}

/// A transfer of tokens.
#[derive(Debug, PartialEq)]
pub struct StxTokenTransfer<'a>(&'a [u8]);

impl<'a> View for StxTokenTransfer<'a> {
    type V = Seq<u8>;

    closed spec fn view(&self) -> Seq<u8> {
        self.0@
    }
}

impl<'a> Clone for StxTokenTransfer<'a> {
    fn clone(&self) -> (res: Self)
        ensures
            res@ == self@,
    {
        proof {
            use_type_invariant(self);
        }
        StxTokenTransfer(self.0)
    }
}

impl<'a> StxTokenTransfer<'a> {
    #[verifier::type_invariant]
    closed spec fn well_formed(self) -> bool {
        is_token_transfer(self.0@)
    }

    /// Reads a transfer off the front of `bytes`.
    pub fn from_bytes(bytes: &'a [u8]) -> (res: Result<(&'a [u8], Self), ParserError>)
        ensures
            match token_transfer_len(bytes@) {
                Ok(n) => res matches Ok((rest, transfer)) && transfer@ == bytes@.take(n as int)
                    && rest@ == bytes@.skip(n as int),
                Err(e) => res matches Err(x) && x == e,
            },
    {
        let (after_id, id) = match le_u8(bytes) {
            Ok(found) => found,
            Err(_) => return Err(ParserError::parser_unexpected_buffer_end),
        };
        let kind = match TokenTranferPrincipal::from_u8(id) {
            Ok(kind) => kind,
            Err(e) => return Err(e),
        };
        let principal = match kind {
            TokenTranferPrincipal::Standard => PrincipalData::standard_from_bytes(after_id),
            TokenTranferPrincipal::Contract => PrincipalData::contract_principal_from_bytes(
                after_id,
            ),
        };
        let raw = match principal {
            Ok((raw, _)) => raw,
            Err(e) => return Err(e),
        };
        assert(recipient_len(bytes@) == Ok::<nat, ParserError>((bytes@.len() - raw@.len()) as nat));
        // Besides the principal there are the message and the amount.
        let len: usize = bytes.len() - raw.len() + MEMO_LEN + AMOUNT_LEN;
        match take(len, bytes) {
            Ok((rest, data)) => {
                proof {
                    lemma_token_transfer_prefix(bytes@);
                }
                Ok((rest, StxTokenTransfer(data)))
            },
            Err(_) => Err(ParserError::parser_unexpected_buffer_end),
        }
    }

    /// The message.
    pub fn memo(&self) -> (memo: &[u8])
        ensures
            memo@ == token_memo(self@),
            memo@.len() == MEMO_LEN,
    {
        proof {
            use_type_invariant(self);
        }
        let at: usize = self.0.len() - MEMO_LEN;
        let memo = &self.0[at..self.0.len()];
        assert(memo@ =~= token_memo(self@));
        memo
    }

    /// The amount in millionths of a token.
    pub fn amount(&self) -> (res: Result<u64, ParserError>)
        ensures
            res matches Ok(amount) && amount == token_amount(self@),
    {
        proof {
            use_type_invariant(self);
        }
        let at: usize = self.0.len() - MEMO_LEN - AMOUNT_LEN;
        let tail = &self.0[at..self.0.len()];
        assert(tail@.take(8) =~= self@.subrange(
            self@.len() - MEMO_LEN - AMOUNT_LEN,
            self@.len() - MEMO_LEN,
        ));
        match be_u64(tail) {
            Ok((_, amount)) => Ok(amount),
            Err(_) => Err(ParserError::parser_unexpected_buffer_end),
        }
    }

    /// The hash in the address of the recipient.
    pub fn raw_address(&self) -> (hash: &[u8])
        ensures
            hash@ == token_hash(self@),
            hash@.len() == 20,
    {
        proof {
            use_type_invariant(self);
        }
        // Skips the kind of the recipient and the version of the address.
        &self.0[2..22]
    }

    /// The address of the recipient as text.
    pub fn encoded_address(&self) -> (res: Result<AddressText, ParserError>)
        ensures
            match token_address(self@) {
                Ok(text) => res matches Ok(address) && address@ == text && text.len()
                    <= C32_ENCODED_ADDRS_LENGTH,
                Err(e) => res matches Err(x) && x == e,
            },
    {
        proof {
            use_type_invariant(self);
        }
        let version = self.0[1];
        c32_address(version, &self.0[2..22])
    }

    /// The amount in decimal.
    pub fn amount_stx(&self) -> (res: Result<AmountText, ParserError>)
        ensures
            res matches Ok(text) && text@ == decimal(token_amount(self@)) && text@.len() <= 20,
    {
        let mut output = [0u8; MAX_STR_BUFF_LEN];
        let amount = match self.amount() {
            Ok(amount) => amount,
            Err(e) => return Err(e),
        };
        proof {
            lemma_decimal_len_u64(amount);
        }
        let len: usize = match u64_to_str(&mut output, amount) {
            Ok(len) => len as usize,
            Err(e) => return Err(e),
        };
        let text = AmountText::from_array(output, len);
        assert(text@ =~= decimal(token_amount(self@)));
        Ok(text)
    }

    /// Shows page `page_idx` of display item `display_idx`.
    pub fn get_token_transfer_items(
        &self,
        display_idx: u8,
        out_key: &mut [u8],
        out_value: &mut [u8],
        page_idx: u8,
    ) -> (res: Result<u8, ParserError>)
        ensures
            (Shown { result: res, key: final(out_key)@, value: final(out_value)@ }) == (
            match token_item(self@, display_idx) {
                Some(item) => shown(item, old(out_key)@, old(out_value)@, page_idx),
                None => refused(
                    ParserError::parser_display_idx_out_of_range,
                    old(out_key)@,
                    old(out_value)@,
                ),
            }),
            res != Err::<u8, ParserError>(ParserError::parser_display_page_out_of_range),
    {
        match display_idx {
            // The amount.
            0 => {
                match write_str(out_key, "Amount uSTX") {
                    Ok(_) => {},
                    Err(e) => return Err(e),
                }
                match self.amount_stx() {
                    Ok(amount) => page_string(out_value, amount.as_slice(), page_idx),
                    Err(e) => Err(e),
                }
            },
            // The address of the recipient.
            1 => {
                match write_str(out_key, "To") {
                    Ok(_) => {},
                    Err(e) => return Err(e),
                }
                match self.encoded_address() {
                    Ok(recipient) => page_string(out_value, recipient.as_slice(), page_idx),
                    Err(e) => Err(e),
                }
            },
            2 => {
                match write_str(out_key, "Memo") {
                    Ok(_) => {},
                    Err(e) => return Err(e),
                }
                page_string(out_value, self.memo(), page_idx)
            },
            _ => Err(ParserError::parser_display_idx_out_of_range),
        }
    }
}

} // verus!
