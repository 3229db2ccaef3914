//! Inclusive spans of characters.
//!
//! A `char` is a Unicode scalar value: a code point outside the surrogate
//! block. Counting the scalar values below a code point gives its rank, and
//! the characters of a span are those of consecutive ranks.

use vstd::prelude::*;

verus! {

/// The first code point of the surrogate block.
pub const SURROGATE_FIRST: u32 = 0xD800;

/// The first code point after the surrogate block.
pub const SURROGATE_END: u32 = 0xE000;

/// One more than the largest code point.
pub const CODE_POINT_END: u32 = 0x110000;

/// Whether the code point `v` is a scalar value, that is the number of a `char`.
pub open spec fn is_scalar(v: int) -> bool {
    0 <= v < SURROGATE_FIRST || SURROGATE_END <= v < CODE_POINT_END
}

/// How many scalar values lie below the code point `v`.
pub open spec fn scalar_rank(v: int) -> int {
    if v <= SURROGATE_FIRST {
        v
    } else if v < SURROGATE_END {
        SURROGATE_FIRST as int
    } else {
        v - (SURROGATE_END - SURROGATE_FIRST)
    }
}

/// The character that has exactly `rank` scalar values below it.
pub open spec fn scalar_at(rank: int) -> char {
    if rank < SURROGATE_FIRST {
        rank as char
    } else {
        (rank + (SURROGATE_END - SURROGATE_FIRST)) as char
    }
}

/// How many characters lie in the span from `first` through `last`.
pub open spec fn span_len(first: char, last: char) -> nat {
    if first as int <= last as int {
        (scalar_rank(last as int + 1) - scalar_rank(first as int)) as nat
    } else {
        0
    }
}

/// The characters from `first` through `last`, both included, in ascending
/// order. Empty where `first` is above `last`.
pub open spec fn char_span(first: char, last: char) -> Seq<char> {
    Seq::new(span_len(first, last), |i: int| scalar_at(scalar_rank(first as int) + i))
}

/// `char::from_u32`, as its documentation has it and not proved here: the
/// character whose number is `code`, and `None` where `code` is a surrogate
/// or lies above the last code point.
pub assume_specification[ char::from_u32 ](code: u32) -> (made: Option<char>)
    ensures
        made == if is_scalar(code as int) {
            Some(code as char)
        } else {
            None
        },
;

/// A span holds exactly the characters between its two ends.
pub proof fn lemma_span_members(first: char, last: char, c: char)
    ensures
        char_span(first, last).contains(c) <==> first as int <= c as int <= last as int,
{
    let span = char_span(first, last);
    let base = scalar_rank(first as int);
    if first as int <= c as int <= last as int {
        let i = scalar_rank(c as int) - base;
        assert(span[i] == c);
    }
    if span.contains(c) {
        let i = choose|i: int| 0 <= i < span.len() && span[i] == c;
        assert(span[i] == scalar_at(base + i));
    }
}

/// A span is strictly ascending, so no character occurs in it twice.
pub proof fn lemma_span_ascending(first: char, last: char, i: int, j: int)
    requires
        0 <= i < j < span_len(first, last),
    ensures
        (char_span(first, last)[i] as int) < char_span(first, last)[j] as int,
{
}

} // verus!
