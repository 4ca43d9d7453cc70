//! Text for a small screen: labels, decimal numbers, and pages of longer texts.

use crate::error::ParserError;
use vstd::prelude::*;
use vstd::utf8::encode_utf8;

verus! {

/// `text` written over the front of `buffer`.
pub open spec fn overwrite(buffer: Seq<u8>, text: Seq<u8>) -> Seq<u8> {
    text + buffer.skip(text.len() as int)
}

/// Writes `text` over the front of `out`, or leaves `out` as it is where it is
/// too short.
pub fn write_bytes(out: &mut [u8], text: &[u8]) -> (res: Result<(), ParserError>)
    ensures
        res is Ok <==> text@.len() <= old(out)@.len(),
        match res {
            Ok(_) => final(out)@ == overwrite(old(out)@, text@),
            Err(e) => e == ParserError::parser_unexpected_buffer_end && final(out)@ == old(out)@,
        },
{
    if out.len() < text.len() {
        return Err(ParserError::parser_unexpected_buffer_end);
    }
    let mut i: usize = 0;
    while i < text.len()
        invariant
            i <= text@.len() <= out@.len(),
            out@ == overwrite(old(out)@, text@.take(i as int)),
            old(out)@.len() == out@.len(),
        decreases text@.len() - i,
    {
        out[i] = text[i];
        i = i + 1;
        assert(out@ =~= overwrite(old(out)@, text@.take(i as int)));
    }
    assert(text@.take(i as int) =~= text@);
    Ok(())
}

/// Writes the bytes of `text` over the front of `out`, or leaves `out` as it is
/// where it is too short.
pub fn write_str(out: &mut [u8], text: &str) -> (res: Result<(), ParserError>)
    ensures
        res is Ok <==> encode_utf8(text@).len() <= old(out)@.len(),
        match res {
            Ok(_) => final(out)@ == overwrite(old(out)@, encode_utf8(text@)),
            Err(e) => e == ParserError::parser_unexpected_buffer_end && final(out)@ == old(out)@,
        },
{
    write_bytes(out, text.as_bytes())
}

/// The decimal digits of `n` as characters, without leading zeros.
pub open spec fn decimal(n: nat) -> Seq<u8>
    decreases n,
{
    if n < 10 {
        seq![(48 + n) as u8]
    } else {
        decimal(n / 10).push((48 + n % 10) as u8)
    }
}

/// The number that decimal digits stand for.
pub open spec fn decimal_value(digits: Seq<u8>) -> nat
    decreases digits.len(),
{
    if digits.len() == 0 {
        0
    } else {
        10 * decimal_value(digits.drop_last()) + (digits.last() - 48) as nat
    }
}

/// How many numbers `k` decimal digits can hold.
pub open spec fn pow10(k: nat) -> nat
    decreases k,
{
    if k == 0 {
        1
    } else {
        10 * pow10((k - 1) as nat)
    }
}

/// A number below `10^k` has at most `k` digits.
pub proof fn lemma_decimal_len(n: nat, k: nat)
    requires
        n < pow10(k),
        k > 0,
    ensures
        1 <= decimal(n).len() <= k,
    decreases k,
{
    if n >= 10 {
        reveal_with_fuel(pow10, 2);
        lemma_decimal_len(n / 10, (k - 1) as nat);
    }
}

/// A 64-bit number has at most twenty digits.
pub proof fn lemma_decimal_len_u64(n: u64)
    ensures
        1 <= decimal(n as nat).len() <= 20,
{
    reveal_with_fuel(pow10, 21);
    lemma_decimal_len(n as nat, 20);
}

/// Writes `value` in decimal over the front of `out` and returns the number of
/// digits, or leaves `out` as it is where it is too short.
pub fn u64_to_str(out: &mut [u8], value: u64) -> (res: Result<u8, ParserError>)
    ensures
        res is Ok <==> decimal(value as nat).len() <= old(out)@.len(),
        match res {
            Ok(len) => len == decimal(value as nat).len() && final(out)@ == overwrite(
                old(out)@,
                decimal(value as nat),
            ),
            Err(e) => e == ParserError::parser_unexpected_buffer_end && final(out)@ == old(out)@,
        },
{
    let mut reversed: Vec<u8> = Vec::new();
    let mut left: u64 = value;
    assert(decimal(value as nat) =~= decimal(left as nat) + reversed@.reverse());
    while left >= 10
        invariant
            decimal(value as nat) == decimal(left as nat) + reversed@.reverse(),
        decreases left,
    {
        reversed.push(48 + (left % 10) as u8);
        left = left / 10;
        assert(decimal(value as nat) =~= decimal(left as nat) + reversed@.reverse());
    }
    reversed.push(48 + left as u8);
    assert(decimal(value as nat) =~= reversed@.reverse());
    proof {
        lemma_decimal_len_u64(value);
    }
    let mut digits: Vec<u8> = Vec::new();
    let mut i: usize = reversed.len();
    while i > 0
        invariant
            i <= reversed@.len(),
            digits@ == reversed@.reverse().take(reversed@.len() - i),
        decreases i,
    {
        i = i - 1;
        digits.push(reversed[i]);
        assert(digits@ =~= reversed@.reverse().take(reversed@.len() - i));
    }
    assert(digits@ =~= decimal(value as nat));
    match write_bytes(out, digits.as_slice()) {
        Ok(_) => Ok(digits.len() as u8),
        Err(e) => Err(e),
    }
}

/// How many pages a text of `len` characters fills, where a page has room for
/// `room` of them.
pub open spec fn page_count(len: nat, room: nat) -> nat {
    if len % room == 0 {
        len / room
    } else {
        len / room + 1
    }
}

/// The part of `text` that page number `page` shows, counted from zero. Pages
/// past the last one show nothing.
pub open spec fn page_text(text: Seq<u8>, room: nat, page: nat) -> Seq<u8> {
    let start = page * room;
    if start >= text.len() {
        Seq::empty()
    } else if start + room >= text.len() {
        text.skip(start as int)
    } else {
        text.subrange(start as int, (start + room) as int)
    }
}

/// A screen line of `len` bytes that shows `shown`, with zeros behind it.
pub open spec fn padded(shown: Seq<u8>, len: nat) -> Seq<u8> {
    Seq::new(
        len,
        |i: int|
            if i < shown.len() {
                shown[i]
            } else {
                0u8
            },
    )
}

/// What asking for page `page` of `text` on a line of `len` bytes gives: the
/// number of pages, and the line. The last byte of a line is always a zero.
pub open spec fn paged(text: Seq<u8>, len: nat, page: u8) -> Result<(u8, Seq<u8>), ParserError> {
    if len < 2 {
        Err(ParserError::parser_unexpected_buffer_end)
    } else {
        let room = (len - 1) as nat;
        if page_count(text.len(), room) > u8::MAX {
            Err(ParserError::parser_display_page_out_of_range)
        } else {
            Ok(
                (
                    page_count(text.len(), room) as u8,
                    padded(page_text(text, room, page as nat), len),
                ),
            )
        }
    }
}

/// A page number is in range just where the page starts inside of the text.
pub proof fn lemma_page_start(len: nat, room: nat, page: nat)
    requires
        room > 0,
    ensures
        page < page_count(len, room) <==> page * room < len,
{
    let q = len / room;
    let r = len % room;
    assert(len == q * room + r && 0 <= r < room) by (nonlinear_arith)
        requires
            room > 0,
            q == len / room,
            r == len % room,
    ;
    if page < page_count(len, room) {
        if page < q {
            assert(page * room < q * room) by (nonlinear_arith)
                requires
                    page < q,
                    room > 0,
            ;
        }
    } else {
        if r == 0 {
            assert(q * room <= page * room) by (nonlinear_arith)
                requires
                    q <= page,
            ;
        } else {
            assert((q + 1) * room <= page * room) by (nonlinear_arith)
                requires
                    q + 1 <= page,
            ;
            assert((q + 1) * room == q * room + room) by (nonlinear_arith);
        }
    }
}

/// No page is empty, so that there are no more pages than characters.
pub proof fn lemma_page_count(len: nat, room: nat)
    requires
        room > 0,
    ensures
        page_count(len, room) <= len,
{
    lemma_page_start(len, room, len);
    assert(len <= len * room) by (nonlinear_arith)
        requires
            room > 0,
    ;
}

/// Shows page `page_idx` of `text` on `out` and returns the number of pages.
/// Where it fails, `out` stays as it is.
pub fn page_string(out: &mut [u8], text: &[u8], page_idx: u8) -> (res: Result<u8, ParserError>)
    ensures
        match paged(text@, old(out)@.len(), page_idx) {
            Ok((count, line)) => res == Ok::<u8, ParserError>(count) && final(out)@ == line,
            Err(e) => res == Err::<u8, ParserError>(e) && final(out)@ == old(out)@,
        },
        text@.len() <= u8::MAX ==> res != Err::<u8, ParserError>(
            ParserError::parser_display_page_out_of_range,
        ),
{
    let len = out.len();
    if len < 2 {
        return Err(ParserError::parser_unexpected_buffer_end);
    }
    let room: usize = len - 1;
    proof {
        lemma_page_count(text@.len(), room as nat);
    }
    let full: usize = text.len() / room;
    let rest: usize = text.len() % room;
    if full > 255 || (full == 255 && rest > 0) {
        return Err(ParserError::parser_display_page_out_of_range);
    }
    let count: u8 = if rest > 0 {
        full as u8 + 1
    } else {
        full as u8
    };
    proof {
        lemma_page_start(text@.len(), room as nat, page_idx as nat);
    }
    let mut start: usize = 0;
    let mut shown: usize = 0;
    if page_idx < count {
        start = page_idx as usize * room;
        shown = if text.len() - start < room {
            text.len() - start
        } else {
            room
        };
    }
    let ghost line = page_text(text@, room as nat, page_idx as nat);
    assert(shown == line.len());
    let mut i: usize = 0;
    while i < len
        invariant
            i <= len,
            len == out@.len() == old(out)@.len(),
            start + shown <= text.len(),
            shown == line.len(),
            forall|k: int| 0 <= k < shown ==> line[k] == text@[start + k],
            forall|k: int| 0 <= k < i ==> out@[k] == padded(line, len as nat)[k],
        decreases len - i,
    {
        out[i] = if i < shown {
            text[start + i]
        } else {
            0
        };
        i = i + 1;
    }
    assert(out@ =~= padded(line, len as nat));
    Ok(count)
}

} // verus!
