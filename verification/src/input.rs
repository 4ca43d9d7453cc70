//! Reading fields off the front of a byte slice.

use vstd::prelude::*;

verus! {

/// The number that `s` stands for in base 256, most significant byte first.
pub open spec fn be_value(s: Seq<u8>) -> nat
    decreases s.len(),
{
    if s.len() == 0 {
        0
    } else {
        256 * be_value(s.drop_last()) + s.last() as nat
    }
}

/// The `width` lowest bytes of `v`, most significant byte first.
pub open spec fn be_bytes(v: nat, width: nat) -> Seq<u8>
    decreases width,
{
    if width == 0 {
        Seq::empty()
    } else {
        be_bytes(v / 256, (width - 1) as nat).push((v % 256) as u8)
    }
}

/// How many numbers `width` bytes can hold.
pub open spec fn pow256(width: nat) -> nat
    decreases width,
{
    if width == 0 {
        1
    } else {
        256 * pow256((width - 1) as nat)
    }
}

/// `be_bytes` gives `width` bytes, and `be_value` reads the number back where it fits.
pub proof fn lemma_be_bytes_value(v: nat, width: nat)
    ensures
        be_bytes(v, width).len() == width,
        v < pow256(width) ==> be_value(be_bytes(v, width)) == v,
    decreases width,
{
    if width > 0 {
        let w = (width - 1) as nat;
        lemma_be_bytes_value(v / 256, w);
        assert(be_bytes(v, width).drop_last() =~= be_bytes(v / 256, w));
    }
}

/// A number read from bytes fits in that many bytes.
pub proof fn lemma_be_value_bound(s: Seq<u8>)
    ensures
        be_value(s) < pow256(s.len()),
    decreases s.len(),
{
    if s.len() > 0 {
        lemma_be_value_bound(s.drop_last());
    }
}

/// Two equally long sequences that stand for the same number are equal.
pub proof fn lemma_be_value_injective(a: Seq<u8>, b: Seq<u8>)
    requires
        a.len() == b.len(),
        be_value(a) == be_value(b),
    ensures
        a == b,
    decreases a.len(),
{
    if a.len() > 0 {
        lemma_be_value_injective(a.drop_last(), b.drop_last());
        assert(a =~= a.drop_last().push(a.last()));
        assert(b =~= b.drop_last().push(b.last()));
    }
    assert(a =~= b);
}

/// A leading zero byte does not change the number.
pub proof fn lemma_be_value_leading_zero(s: Seq<u8>)
    requires
        s.len() > 0,
        s[0] == 0,
    ensures
        be_value(s) == be_value(s.drop_first()),
    decreases s.len(),
{
    reveal_with_fuel(be_value, 2);
    if s.len() > 1 {
        lemma_be_value_leading_zero(s.drop_last());
        assert(s.drop_last().drop_first() =~= s.drop_first().drop_last());
    }
}

/// nom's error, opaque here: it says that a parser did not succeed.
#[verifier::external_type_specification]
#[verifier::external_body]
#[verifier::reject_recursive_types(E)]
pub struct ExNomErr<E>(nom::Err<E>);

/// nom's list of reasons for an error, opaque here.
#[verifier::external_type_specification]
#[verifier::external_body]
pub struct ExErrorKind(nom::error::ErrorKind);

/// `nom::number::complete::le_u8`: splits off the first byte, and fails only on
/// an empty input.
#[verifier::external_body]
pub(crate) fn le_u8<'a>(input: &'a [u8]) -> (res: Result<
    (&'a [u8], u8),
    nom::Err<(&'a [u8], nom::error::ErrorKind)>,
>)
    ensures
        res is Ok <==> input@.len() >= 1,
        res matches Ok((rest, v)) ==> rest@ == input@.skip(1) && v == input@[0],
{
    nom::number::complete::le_u8(input)
}

/// `nom::number::complete::be_u32`: splits off four bytes and reads them as a
/// number, most significant byte first. It fails only on fewer than four bytes.
#[verifier::external_body]
pub(crate) fn be_u32<'a>(input: &'a [u8]) -> (res: Result<
    (&'a [u8], u32),
    nom::Err<(&'a [u8], nom::error::ErrorKind)>,
>)
    ensures
        res is Ok <==> input@.len() >= 4,
        res matches Ok((rest, v)) ==> rest@ == input@.skip(4) && v == be_value(input@.take(4)),
{
    nom::number::complete::be_u32(input)
}

/// `nom::number::complete::be_u64`: splits off eight bytes and reads them as a
/// number, most significant byte first. It fails only on fewer than eight bytes.
#[verifier::external_body]
pub(crate) fn be_u64<'a>(input: &'a [u8]) -> (res: Result<
    (&'a [u8], u64),
    nom::Err<(&'a [u8], nom::error::ErrorKind)>,
>)
    ensures
        res is Ok <==> input@.len() >= 8,
        res matches Ok((rest, v)) ==> rest@ == input@.skip(8) && v == be_value(input@.take(8)),
{
    nom::number::complete::be_u64(input)
}

/// `nom::bytes::complete::take`: splits off the first `count` bytes. The part
/// that is left comes first in the pair, the part that was taken second. It fails
/// only where the input is shorter than `count`.
#[verifier::external_body]
pub(crate) fn take<'a>(count: usize, input: &'a [u8]) -> (res: Result<
    (&'a [u8], &'a [u8]),
    nom::Err<(&'a [u8], nom::error::ErrorKind)>,
>)
    ensures
        res is Ok <==> input@.len() >= count,
        res matches Ok((rest, taken)) ==> rest@ == input@.skip(count as int) && taken@
            == input@.take(count as int),
{
    nom::bytes::complete::take(count)(input)
}

} // verus!
