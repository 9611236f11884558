//! Cutting a text at byte offsets.
//!
//! The grammar is stated over bytes. Every cut it makes falls next to an ASCII
//! byte, and such an offset is always a character boundary of valid UTF-8.

use vstd::prelude::*;
use vstd::string::*;
use vstd::utf8::*;

verus! {

/// The bytes of `s` from offset `k` on.
pub open spec fn tail(s: Seq<u8>, k: int) -> Seq<u8> {
    s.subrange(k, s.len() as int)
}

/// The first `k` bytes of `s`.
pub open spec fn head(s: Seq<u8>, k: int) -> Seq<u8> {
    s.subrange(0, k)
}

/// True for the bytes below 128.
pub open spec fn is_ascii_byte(b: u8) -> bool {
    b < 0x80
}

/// The offset right behind an ASCII byte is a character boundary.
pub proof fn lemma_boundary_after_ascii(bytes: Seq<u8>, i: int)
    requires
        valid_utf8(bytes),
        0 <= i < bytes.len(),
        is_ascii_byte(bytes[i]),
    ensures
        is_char_boundary(bytes, i + 1),
    decreases bytes.len(),
{
    reveal_with_fuel(valid_utf8, 2);
    let k = length_of_first_scalar(bytes);
    if i == 0 {
        reveal_with_fuel(is_char_boundary, 2);
        assert(k == 1);
        assert(is_char_boundary(pop_first_scalar(bytes), 0));
    } else if i < k {
        assert(is_continuation_byte(bytes[i]));
    } else {
        let rest = pop_first_scalar(bytes);
        assert(rest[i - k] == bytes[i]);
        lemma_boundary_after_ascii(rest, i - k);
        assert(is_char_boundary(bytes, i + 1) == is_char_boundary(rest, i + 1 - k));
    }
}

/// The offset of an ASCII byte is a character boundary.
pub proof fn lemma_boundary_at_ascii(bytes: Seq<u8>, i: int)
    requires
        valid_utf8(bytes),
        0 <= i < bytes.len(),
        is_ascii_byte(bytes[i]),
    ensures
        is_char_boundary(bytes, i),
{
    is_char_boundary_iff_not_is_continuation_byte(bytes, i);
}

/// True when `k` is an offset at which the grammar may cut `bytes`: the start,
/// or an offset that has an ASCII byte on one of its sides.
pub open spec fn cuttable(bytes: Seq<u8>, k: int) -> bool {
    &&& 0 <= k <= bytes.len()
    &&& (k == 0 || is_ascii_byte(bytes[k - 1]) || (k < bytes.len() && is_ascii_byte(bytes[k])))
}

/// Every offset the grammar cuts at is a character boundary.
pub proof fn lemma_cuttable_is_boundary(bytes: Seq<u8>, k: int)
    requires
        valid_utf8(bytes),
        cuttable(bytes, k),
    ensures
        is_char_boundary(bytes, k),
{
    if k == 0 {
    } else if is_ascii_byte(bytes[k - 1]) {
        lemma_boundary_after_ascii(bytes, k - 1);
    } else {
        lemma_boundary_at_ascii(bytes, k);
    }
}

/// A valid text ends on a character boundary of every text that it begins.
pub proof fn lemma_boundary_after_prefix(bytes: Seq<u8>, prefix: Seq<u8>)
    requires
        valid_utf8(bytes),
        valid_utf8(prefix),
        prefix.is_prefix_of(bytes),
    ensures
        is_char_boundary(bytes, prefix.len() as int),
    decreases prefix.len(),
{
    reveal_with_fuel(valid_utf8, 2);
    reveal_with_fuel(is_char_boundary, 2);
    if prefix.len() > 0 {
        let k = length_of_first_scalar(prefix);
        assert(bytes[0] == prefix[0]);
        assert(k == length_of_first_scalar(bytes));
        assert(k <= prefix.len());
        let rest = pop_first_scalar(bytes);
        let short = pop_first_scalar(prefix);
        assert(short =~= rest.subrange(0, short.len() as int));
        lemma_boundary_after_prefix(rest, short);
    }
}

/// Cuts `input` in two behind `prefix`, with which it begins.
pub fn cut_after<'a>(input: &'a str, prefix: &str) -> (rest: &'a str)
    requires
        prefix.spec_bytes().is_prefix_of(input.spec_bytes()),
    ensures
        rest.spec_bytes() == tail(input.spec_bytes(), prefix.spec_bytes().len() as int),
{
    proof {
        encode_utf8_valid_utf8(input@);
        encode_utf8_valid_utf8(prefix@);
        lemma_boundary_after_prefix(input.spec_bytes(), prefix.spec_bytes());
    }
    input.split_at(prefix.as_bytes().len()).1
}

/// Cuts `input` in two at byte offset `k`.
pub fn cut<'a>(input: &'a str, k: usize) -> (parts: (&'a str, &'a str))
    requires
        cuttable(input.spec_bytes(), k as int),
    ensures
        parts.0.spec_bytes() == head(input.spec_bytes(), k as int),
        parts.1.spec_bytes() == tail(input.spec_bytes(), k as int),
{
    proof {
        encode_utf8_valid_utf8(input@);
        lemma_cuttable_is_boundary(input.spec_bytes(), k as int);
    }
    input.split_at(k)
}

/// The text of `input` from byte offset `k` on.
pub fn after<'a>(input: &'a str, k: usize) -> (rest: &'a str)
    requires
        cuttable(input.spec_bytes(), k as int),
    ensures
        rest.spec_bytes() == tail(input.spec_bytes(), k as int),
{
    cut(input, k).1
}

/// The text of `input` between the byte offsets `from` and `to`.
pub fn between<'a>(input: &'a str, from: usize, to: usize) -> (part: &'a str)
    requires
        from <= to,
        cuttable(input.spec_bytes(), from as int),
        cuttable(input.spec_bytes(), to as int),
    ensures
        part.spec_bytes() == input.spec_bytes().subrange(from as int, to as int),
{
    let back = cut(input, from).1;
    let part = cut(back, to - from).0;
    assert(part.spec_bytes() =~= input.spec_bytes().subrange(from as int, to as int));
    part
}

} // verus!
