//! The weighted palette: a compact list of selections, and its expansion
//! into one weighted entry per character.

use crate::sampling::{lemma_positive_palette_samples, palette_fault};
use crate::span::{char_span, lemma_span_members, scalar_at, scalar_rank};
use vstd::prelude::*;

verus! {

/// A possible value can be a span of characters or a specific character.
/// The last field is the weight (chance of the character showing up).
#[derive(Clone, Copy, Debug, PartialEq, Eq)]
pub enum PossibleSelection {
    /// Every character from the first through the second, both included.
    Range(char, char, i32),
    /// One character.
    Value(char, i32),
}

impl PossibleSelection {
    /// The weight that each character of the selection gets.
    pub open spec fn weight(self) -> i32 {
        match self {
            PossibleSelection::Range(_, _, weight) => weight,
            PossibleSelection::Value(_, weight) => weight,
        }
    }

    /// The characters of the selection, in the order in which they expand.
    pub open spec fn chars(self) -> Seq<char> {
        match self {
            PossibleSelection::Range(first, last, _) => char_span(first, last),
            PossibleSelection::Value(value, _) => seq![value],
        }
    }

    /// Whether the selection names the character `c`.
    pub open spec fn declares(self, c: char) -> bool {
        match self {
            PossibleSelection::Range(first, last, _) => first as int <= c as int <= last as int,
            PossibleSelection::Value(value, _) => value == c,
        }
    }

    /// The palette entries of the selection: each of its characters with its weight.
    pub open spec fn entries(self) -> Seq<(char, i32)> {
        self.chars().map_values(|c: char| (c, self.weight()))
    }
}

/// The expanded palette of a list of selections: the entries of each
/// selection, one selection after the other.
pub open spec fn expansion(selections: Seq<PossibleSelection>) -> Seq<(char, i32)> {
    selections.map_values(|item: PossibleSelection| item.entries()).flatten()
}

/// The sum of the weights of a palette.
pub open spec fn total_weight(palette: Seq<(char, i32)>) -> int
    decreases palette.len(),
{
    if palette.len() == 0 {
        0
    } else {
        total_weight(palette.drop_last()) + palette.last().1
    }
}

/// The expansion of a list that ends in `item` is the expansion of what
/// stands before it, followed by the entries of `item`.
pub proof fn lemma_expansion_push(selections: Seq<PossibleSelection>, item: PossibleSelection)
    ensures
        expansion(selections.push(item)) == expansion(selections) + item.entries(),
{
    let each = |item: PossibleSelection| item.entries();
    selections.lemma_push_map_commute(each, item);
    selections.map_values(each).lemma_flatten_push(each(item));
    assert(selections.push(item).map_values(each) == selections.map_values(each).push(each(item)));
}

/// The total weight of two palettes joined is the sum of their total weights.
pub proof fn lemma_total_weight_concat(head: Seq<(char, i32)>, tail: Seq<(char, i32)>)
    ensures
        total_weight(head + tail) == total_weight(head) + total_weight(tail),
    decreases tail.len(),
{
    if tail.len() == 0 {
        assert(head + tail =~= head);
    } else {
        lemma_total_weight_concat(head, tail.drop_last());
        assert((head + tail).drop_last() =~= head + tail.drop_last());
    }
}

/// The entries of a selection weigh as much as its weight, once for each
/// of its characters.
pub proof fn lemma_entries_total(item: PossibleSelection)
    ensures
        item.entries().len() == item.chars().len(),
        total_weight(item.entries()) == item.chars().len() * item.weight(),
{
    lemma_uniform_total(item.chars(), item.weight());
}

proof fn lemma_uniform_total(chars: Seq<char>, weight: i32)
    ensures
        total_weight(chars.map_values(|c: char| (c, weight))) == chars.len() * weight,
    decreases chars.len(),
{
    let entries = chars.map_values(|c: char| (c, weight));
    if chars.len() == 0 {
        assert(0 * weight == 0);
    } else {
        lemma_uniform_total(chars.drop_last(), weight);
        assert(entries.drop_last() =~= chars.drop_last().map_values(|c: char| (c, weight)));
        assert(entries.last().1 == weight);
        assert((chars.len() - 1) * weight + weight == chars.len() * weight) by (nonlinear_arith);
    }
}

/// A selection names exactly the characters that it expands to.
pub proof fn lemma_declares_chars(item: PossibleSelection, c: char)
    ensures
        item.declares(c) <==> item.chars().contains(c),
{
    match item {
        PossibleSelection::Range(first, last, _) => {
            lemma_span_members(first, last, c);
        },
        PossibleSelection::Value(value, _) => {
            assert(seq![value][0] == value);
        },
    }
}

/// An entry stands in the expanded palette exactly where some selection
/// names its character and gives it its weight.
pub proof fn lemma_expansion_members(selections: Seq<PossibleSelection>, entry: (char, i32))
    ensures
        expansion(selections).contains(entry) <==> exists|i: int|
            0 <= i < selections.len() && (#[trigger] selections[i]).declares(entry.0)
                && selections[i].weight() == entry.1,
    decreases selections.len(),
{
    if selections.len() == 0 {
        assert(selections.map_values(|item: PossibleSelection| item.entries()) =~= Seq::empty());
    } else {
        let rest = selections.drop_last();
        let item = selections.last();
        let own = item.entries();
        assert(selections =~= rest.push(item));
        lemma_expansion_push(rest, item);
        lemma_expansion_members(rest, entry);
        lemma_declares_chars(item, entry.0);
        if expansion(selections).contains(entry) {
            let k = choose|k: int|
                0 <= k < expansion(selections).len() && expansion(selections)[k] == entry;
            if k < expansion(rest).len() {
                assert(expansion(rest)[k] == entry);
                let i = choose|i: int|
                    0 <= i < rest.len() && (#[trigger] rest[i]).declares(entry.0)
                        && rest[i].weight() == entry.1;
                assert(selections[i] == rest[i]);
            } else {
                let j = k - expansion(rest).len();
                assert(own[j] == entry);
                assert(item.chars()[j] == entry.0);
                assert(selections[selections.len() - 1] == item);
            }
        }
        if exists|i: int|
            0 <= i < selections.len() && (#[trigger] selections[i]).declares(entry.0)
                && selections[i].weight() == entry.1 {
            let i = choose|i: int|
                0 <= i < selections.len() && (#[trigger] selections[i]).declares(entry.0)
                    && selections[i].weight() == entry.1;
            if i < rest.len() {
                assert(rest[i] == selections[i]);
                let k = choose|k: int| 0 <= k < expansion(rest).len() && expansion(rest)[k] == entry;
                assert(expansion(selections)[k] == entry);
            } else {
                let j = choose|j: int| 0 <= j < item.chars().len() && item.chars()[j] == entry.0;
                assert(own[j] == entry);
                assert(expansion(selections)[expansion(rest).len() + j] == entry);
            }
        }
    }
}

/// Every character that a selection of the list names stands in the
/// expanded palette, with the weight of that selection.
pub proof fn lemma_expansion_covers(selections: Seq<PossibleSelection>, i: int, c: char)
    requires
        0 <= i < selections.len(),
        selections[i].declares(c),
    ensures
        expansion(selections).contains((c, selections[i].weight())),
{
    lemma_expansion_members(selections, (c, selections[i].weight()));
}

/// Where every weight of a palette is above zero, its total weight is at
/// least the number of its entries.
pub proof fn lemma_total_weight_of_positive(palette: Seq<(char, i32)>)
    requires
        forall|k: int| 0 <= k < palette.len() ==> (#[trigger] palette[k]).1 > 0,
    ensures
        total_weight(palette) >= palette.len(),
    decreases palette.len(),
{
    if palette.len() > 0 {
        let rest = palette.drop_last();
        assert forall|k: int| 0 <= k < rest.len() implies (#[trigger] rest[k]).1 > 0 by {
            assert(rest[k] == palette[k]);
        }
        lemma_total_weight_of_positive(rest);
        assert(palette[palette.len() - 1].1 > 0);
    }
}

/// Selections with only positive weights that name a character at all
/// expand to a palette whose total weight is above zero, and in which every
/// weight is above zero.
pub proof fn lemma_expansion_total_positive(selections: Seq<PossibleSelection>)
    requires
        forall|i: int| 0 <= i < selections.len() ==> (#[trigger] selections[i]).weight() > 0,
        exists|i: int, c: char| 0 <= i < selections.len() && (#[trigger] selections[i].declares(c)),
    ensures
        total_weight(expansion(selections)) > 0,
        forall|k: int|
            0 <= k < expansion(selections).len() ==> (#[trigger] expansion(selections)[k]).1 > 0,
{
    let palette = expansion(selections);
    assert forall|k: int| 0 <= k < palette.len() implies (#[trigger] palette[k]).1 > 0 by {
        lemma_expansion_members(selections, palette[k]);
        assert(palette.contains(palette[k]));
    }
    lemma_total_weight_of_positive(palette);
    let (i, c) = choose|i: int, c: char|
        0 <= i < selections.len() && (#[trigger] selections[i].declares(c));
    lemma_expansion_covers(selections, i, c);
}

/// Appends to `out` an entry of weight `weight` for each character from
/// `first` through `last`.
fn push_range(out: &mut Vec<(char, i32)>, first: char, last: char, weight: i32)
    ensures
        final(out)@ == old(out)@ + PossibleSelection::Range(first, last, weight).entries(),
{
    let stop: u32 = last as u32;
    let mut code: u32 = first as u32;
    let ghost base = scalar_rank(first as int);
    while code <= stop
        invariant
            stop == last as u32,
            first as u32 <= code <= stop + 1 || first as u32 > stop,
            first as u32 > stop ==> code == first as u32,
            base == scalar_rank(first as int),
            out@ == old(out)@ + Seq::new(
                (scalar_rank(code as int) - base) as nat,
                |i: int| (scalar_at(base + i), weight),
            ),
        decreases stop + 1 - code,
    {
        match char::from_u32(code) {
            Some(c) => {
                out.push((c, weight));
            },
            None => {},
        }
        code = code + 1;
        assert(out@ =~= old(out)@ + Seq::new(
            (scalar_rank(code as int) - base) as nat,
            |i: int| (scalar_at(base + i), weight),
        ));
    }
    assert(out@ =~= old(out)@ + PossibleSelection::Range(first, last, weight).entries());
}

/// Expands a list of selections into a flat palette: one entry per
/// character, each span character by character with the span's weight.
pub fn expand(selections: &[PossibleSelection]) -> (palette: Vec<(char, i32)>)
    ensures
        palette@ == expansion(selections@),
{
    let mut result: Vec<(char, i32)> = Vec::new();
    let mut i: usize = 0;
    assert(selections@.take(0) =~= Seq::empty());
    while i < selections.len()
        invariant
            i <= selections.len(),
            result@ == expansion(selections@.take(i as int)),
        decreases selections.len() - i,
    {
        let item = selections[i];
        proof {
            lemma_expansion_push(selections@.take(i as int), item);
            assert(selections@.take(i + 1) =~= selections@.take(i as int).push(item));
        }
        match item {
            PossibleSelection::Range(first, last, weight) => {
                push_range(&mut result, first, last, weight);
            },
            PossibleSelection::Value(value, weight) => {
                result.push((value, weight));
                assert(result@ =~= expansion(selections@.take(i as int)) + item.entries());
            },
        }
        i = i + 1;
    }
    assert(selections@.take(i as int) =~= selections@);
    result
}

/// The selections that the effect is drawn from: lower-case letters, upper-case
/// letters and digits, a few signs, and above all the space.
pub open spec fn allowed_selections() -> Seq<PossibleSelection> {
    seq![
        PossibleSelection::Range('a', 'z', 8),
        PossibleSelection::Range('A', 'Z', 5),
        PossibleSelection::Range('0', '9', 4),
        PossibleSelection::Value('+', 10),
        PossibleSelection::Value('-', 1),
        PossibleSelection::Value('*', 1),
        PossibleSelection::Value('=', 400),
        PossibleSelection::Value('.', 500),
        PossibleSelection::Value(' ', 100_000),
    ]
}

/// What one more selection adds to an expanded palette: an entry for each
/// of its `count` characters, and `count` times its weight.
proof fn lemma_expansion_grows(
    selections: Seq<PossibleSelection>,
    item: PossibleSelection,
    count: nat,
    weight: int,
)
    requires
        item.chars().len() == count,
        item.weight() == weight,
    ensures
        expansion(selections.push(item)).len() == expansion(selections).len() + count,
        total_weight(expansion(selections.push(item))) == total_weight(expansion(selections))
            + count * weight,
{
    lemma_expansion_push(selections, item);
    lemma_total_weight_concat(expansion(selections), item.entries());
    lemma_entries_total(item);
}

/// The palette of the effect has 68 entries, all of a weight above zero,
/// that weigh 101290 together.
pub proof fn lemma_allowed_palette()
    ensures
        expansion(allowed_selections()).len() == 68,
        total_weight(expansion(allowed_selections())) == 101_290,
        forall|k: int|
            0 <= k < expansion(allowed_selections()).len() ==> (#[trigger] expansion(
                allowed_selections(),
            )[k]).1 > 0,
{
    let s0 = Seq::<PossibleSelection>::empty();
    let s1 = s0.push(PossibleSelection::Range('a', 'z', 8));
    let s2 = s1.push(PossibleSelection::Range('A', 'Z', 5));
    let s3 = s2.push(PossibleSelection::Range('0', '9', 4));
    let s4 = s3.push(PossibleSelection::Value('+', 10));
    let s5 = s4.push(PossibleSelection::Value('-', 1));
    let s6 = s5.push(PossibleSelection::Value('*', 1));
    let s7 = s6.push(PossibleSelection::Value('=', 400));
    let s8 = s7.push(PossibleSelection::Value('.', 500));
    let s9 = s8.push(PossibleSelection::Value(' ', 100_000));
    assert(s0.map_values(|item: PossibleSelection| item.entries()) =~= Seq::empty());
    assert(expansion(s0).len() == 0);
    lemma_expansion_grows(s0, PossibleSelection::Range('a', 'z', 8), 26, 8);
    lemma_expansion_grows(s1, PossibleSelection::Range('A', 'Z', 5), 26, 5);
    lemma_expansion_grows(s2, PossibleSelection::Range('0', '9', 4), 10, 4);
    lemma_expansion_grows(s3, PossibleSelection::Value('+', 10), 1, 10);
    lemma_expansion_grows(s4, PossibleSelection::Value('-', 1), 1, 1);
    lemma_expansion_grows(s5, PossibleSelection::Value('*', 1), 1, 1);
    lemma_expansion_grows(s6, PossibleSelection::Value('=', 400), 1, 400);
    lemma_expansion_grows(s7, PossibleSelection::Value('.', 500), 1, 500);
    lemma_expansion_grows(s8, PossibleSelection::Value(' ', 100_000), 1, 100_000);
    assert(allowed_selections() =~= s9);
    assert(allowed_selections()[8].declares(' '));
    lemma_expansion_total_positive(allowed_selections());
}

/// The selections that the effect is drawn from.
pub fn allowed_chars() -> (selections: Vec<PossibleSelection>)
    ensures
        selections@ == allowed_selections(),
{
    let selections = vec![
        PossibleSelection::Range('a', 'z', 8),
        PossibleSelection::Range('A', 'Z', 5),
        PossibleSelection::Range('0', '9', 4),
        PossibleSelection::Value('+', 10),
        PossibleSelection::Value('-', 1),
        PossibleSelection::Value('*', 1),
        PossibleSelection::Value('=', 400),
        PossibleSelection::Value('.', 500),
        PossibleSelection::Value(' ', 100_000),
    ];
    assert(selections@ =~= allowed_selections());
    selections
}

/// The palette of the effect: the expansion of the allowed selections.
pub fn build_possibilities() -> (palette: Vec<(char, i32)>)
    ensures
        palette@ == expansion(allowed_selections()),
        palette_fault(palette@) is None,
{
    let selections = allowed_chars();
    proof {
        lemma_allowed_palette();
        lemma_positive_palette_samples(expansion(allowed_selections()));
    }
    expand(selections.as_slice())
}

} // verus!
