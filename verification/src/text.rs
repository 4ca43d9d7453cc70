//! Short texts that are kept inline, without allocation.

use crate::error::ParserError;
use vstd::prelude::*;

verus! {

/// The most characters that an encoded address can have room for.
pub const C32_ENCODED_ADDRS_LENGTH: usize = 48;

/// The most characters that a number in decimal can have room for.
pub const MAX_STR_BUFF_LEN: usize = 30;

/// arrayvec's error for a vector without enough room left, opaque here.
#[verifier::external_type_specification]
#[verifier::external_body]
#[verifier::reject_recursive_types(T)]
pub struct ExCapacityError<T>(arrayvec::CapacityError<T>);

/// An encoded address, held in an `arrayvec::ArrayVec`.
#[verifier::external_body]
#[derive(Debug, PartialEq, Eq)]
pub struct AddressText(arrayvec::ArrayVec<[u8; C32_ENCODED_ADDRS_LENGTH]>);

/// The characters that an `AddressText` holds, in their order.
pub uninterp spec fn address_chars(text: AddressText) -> Seq<u8>;

/// `arrayvec::ArrayVec::new`: a vector that holds nothing.
#[verifier::external_body]
fn address_new() -> (text: AddressText)
    ensures
        address_chars(text) == Seq::<u8>::empty(),
{
    AddressText(arrayvec::ArrayVec::new())
}

/// `arrayvec::ArrayVec::try_extend_from_slice`: appends all of `more` where the
/// capacity allows it, and otherwise fails and leaves the vector as it was.
#[verifier::external_body]
fn address_try_extend(text: &mut AddressText, more: &[u8]) -> (res: Result<
    (),
    arrayvec::CapacityError,
>)
    ensures
        res is Ok <==> address_chars(*old(text)).len() + more@.len() <= C32_ENCODED_ADDRS_LENGTH,
        res is Ok ==> address_chars(*final(text)) == address_chars(*old(text)) + more@,
        res is Err ==> address_chars(*final(text)) == address_chars(*old(text)),
{
    text.0.try_extend_from_slice(more)
}

/// `arrayvec::ArrayVec::as_slice`: all that the vector holds.
#[verifier::external_body]
fn address_slice(text: &AddressText) -> (chars: &[u8])
    ensures
        chars@ == address_chars(*text),
{
    text.0.as_slice()
}

/// `arrayvec::ArrayVec::clone`: a vector that holds the same items in the same
/// order.
#[verifier::external_body]
fn address_clone(text: &AddressText) -> (copy: AddressText)
    ensures
        address_chars(copy) == address_chars(*text),
{
    AddressText(text.0.clone())
}

impl View for AddressText {
    type V = Seq<u8>;

    open spec fn view(&self) -> Seq<u8> {
        address_chars(*self)
    }
}

impl Clone for AddressText {
    fn clone(&self) -> (res: Self)
        ensures
            res@ == self@,
    {
        address_clone(self)
    }
}

impl AddressText {
    /// Copies `chars`, which must not be longer than an address can be.
    pub fn from_slice(chars: &[u8]) -> (res: Result<Self, ParserError>)
        ensures
            match res {
                Ok(text) => chars@.len() <= C32_ENCODED_ADDRS_LENGTH && text@ == chars@,
                Err(e) => chars@.len() > C32_ENCODED_ADDRS_LENGTH && e
                    == ParserError::parser_unexpected_buffer_end,
            },
    {
        let mut text = address_new();
        match address_try_extend(&mut text, chars) {
            Ok(_) => {
                assert(text@ =~= chars@);
                Ok(text)
            },
            Err(_) => Err(ParserError::parser_unexpected_buffer_end),
        }
    }

    /// The characters.
    pub fn as_slice(&self) -> (chars: &[u8])
        ensures
            chars@ == self@,
    {
        address_slice(self)
    }
}

/// A number in decimal, held in an `arrayvec::ArrayVec`.
#[verifier::external_body]
#[derive(Debug, PartialEq, Eq)]
pub struct AmountText(arrayvec::ArrayVec<[u8; MAX_STR_BUFF_LEN]>);

/// The characters that an `AmountText` holds, in their order.
pub uninterp spec fn amount_chars(text: AmountText) -> Seq<u8>;

/// `arrayvec::ArrayVec::from` on an array: a vector that is full and holds the
/// items of the array.
#[verifier::external_body]
fn amount_from(chars: [u8; MAX_STR_BUFF_LEN]) -> (text: AmountText)
    ensures
        amount_chars(text) == chars@,
{
    AmountText(arrayvec::ArrayVec::from(chars))
}

/// `arrayvec::ArrayVec::truncate`: keeps the first `len` items, or all of them
/// where there are no more than that.
#[verifier::external_body]
fn amount_truncate(text: &mut AmountText, len: usize)
    ensures
        amount_chars(*final(text)) == if len < amount_chars(*old(text)).len() {
            amount_chars(*old(text)).take(len as int)
        } else {
            amount_chars(*old(text))
        },
{
    text.0.truncate(len)
}

/// `arrayvec::ArrayVec::as_slice`: all that the vector holds.
#[verifier::external_body]
fn amount_slice(text: &AmountText) -> (chars: &[u8])
    ensures
        chars@ == amount_chars(*text),
{
    text.0.as_slice()
}

/// `arrayvec::ArrayVec::clone`: a vector that holds the same items in the same
/// order.
#[verifier::external_body]
fn amount_clone(text: &AmountText) -> (copy: AmountText)
    ensures
        amount_chars(copy) == amount_chars(*text),
{
    AmountText(text.0.clone())
}

impl View for AmountText {
    type V = Seq<u8>;

    open spec fn view(&self) -> Seq<u8> {
        amount_chars(*self)
    }
}

impl Clone for AmountText {
    fn clone(&self) -> (res: Self)
        ensures
            res@ == self@,
    {
        amount_clone(self)
    }
}

impl AmountText {
    /// Keeps the first `len` of `chars`, or all of them where there are no more.
    pub fn from_array(chars: [u8; MAX_STR_BUFF_LEN], len: usize) -> (text: Self)
        ensures
            text@ == chars@.take(if len <= MAX_STR_BUFF_LEN { len as int } else { MAX_STR_BUFF_LEN as int }),
    {
        let mut text = amount_from(chars);
        amount_truncate(&mut text, len);
        assert(chars@.take(MAX_STR_BUFF_LEN as int) =~= chars@);
        text
    }

    /// The characters.
    pub fn as_slice(&self) -> (chars: &[u8])
        ensures
            chars@ == self@,
    {
        amount_slice(self)
    }
}

} // verus!
