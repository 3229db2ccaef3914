//! Weighted sampling from a palette, done by the weighted index distribution
//! of `rand`: when a palette can be sampled from, and what a draw can give.

use crate::palette::{
    expansion, lemma_expansion_covers, lemma_expansion_members, lemma_total_weight_of_positive,
    total_weight, PossibleSelection,
};
use rand::distributions::{Distribution, WeightedError, WeightedIndex};
use rand::rngs::ThreadRng;
use vstd::prelude::*;

verus! {

/// Why a palette cannot be sampled from.
#[derive(Clone, Copy, Debug, PartialEq, Eq)]
pub enum PaletteError {
    /// The palette has no entry.
    NoItem,
    /// Some weight is below zero.
    InvalidWeight,
    /// No weight is above zero.
    AllWeightsZero,
    /// The weights above zero add up to more than an `i32` holds.
    TotalTooLarge,
}

/// The weights of a palette, entry by entry.
pub open spec fn weights_of(palette: Seq<(char, i32)>) -> Seq<i32> {
    palette.map_values(|entry: (char, i32)| entry.1)
}

/// Whether some weight of the palette is below zero.
pub open spec fn has_negative_weight(palette: Seq<(char, i32)>) -> bool {
    exists|k: int| 0 <= k < palette.len() && (#[trigger] palette[k]).1 < 0
}

/// The sum of the weights that are above zero.
pub open spec fn positive_weight(palette: Seq<(char, i32)>) -> int
    decreases palette.len(),
{
    if palette.len() == 0 {
        0
    } else if palette.last().1 > 0 {
        positive_weight(palette.drop_last()) + palette.last().1
    } else {
        positive_weight(palette.drop_last())
    }
}

/// What `rand` says of a palette whose weights it can add up: the error
/// with which it refuses to build a distribution, or `None` where it builds one.
pub open spec fn refusal(palette: Seq<(char, i32)>) -> Option<WeightedError> {
    if palette.len() == 0 {
        Some(WeightedError::NoItem)
    } else if has_negative_weight(palette) {
        Some(WeightedError::InvalidWeight)
    } else if total_weight(palette) == 0 {
        Some(WeightedError::AllWeightsZero)
    } else {
        None
    }
}

/// Why the palette cannot be sampled from, or `None` where it can: weights
/// too large to add up are looked for first, then what `rand` refuses.
pub open spec fn palette_fault(palette: Seq<(char, i32)>) -> Option<PaletteError> {
    if positive_weight(palette) > i32::MAX {
        Some(PaletteError::TotalTooLarge)
    } else {
        match refusal(palette) {
            Some(error) => Some(error_of(error)),
            None => None,
        }
    }
}

/// The error of this library that stands for an error of `rand`.
pub open spec fn error_of(error: WeightedError) -> PaletteError {
    match error {
        WeightedError::NoItem => PaletteError::NoItem,
        WeightedError::InvalidWeight => PaletteError::InvalidWeight,
        WeightedError::AllWeightsZero => PaletteError::AllWeightsZero,
        WeightedError::TooMany => PaletteError::TotalTooLarge,
    }
}

/// Whether a draw from the palette can give the character `c`: some entry
/// holds it with a weight above zero.
pub open spec fn drawable(palette: Seq<(char, i32)>, c: char) -> bool {
    exists|k: int| 0 <= k < palette.len() && (#[trigger] palette[k]).0 == c && palette[k].1 > 0
}

/// A `WeightedIndex<i32>` of `rand`: a distribution over the indices of a
/// list of weights. Nothing of its inside is known here; what it was built
/// from goes by the name `table_weights`.
#[verifier::external_body]
pub struct WeightTable {
    inner: WeightedIndex<i32>,
}

/// `ThreadRng` of `rand`, the generator that draws are made with. It is only
/// handed on, and nothing is claimed of it.
#[verifier::external_type_specification]
#[verifier::external_body]
pub struct ExThreadRng(ThreadRng);

/// `WeightedError` of `rand`, with its four variants.
#[verifier::external_type_specification]
pub struct ExWeightedError(WeightedError);

/// The weights that a table was built from, in their order: one for each
/// index that a draw from the table can give.
pub uninterp spec fn table_weights(table: WeightTable) -> Seq<i32>;

/// Whether the table was built from the weights of the palette.
pub open spec fn table_matches(table: WeightTable, palette: Seq<(char, i32)>) -> bool {
    table_weights(table) == weights_of(palette)
}

/// `WeightedIndex::new` on the weights of the palette, in the palette's order.
/// Taken from its source, not proved: it refuses an empty list with `NoItem`,
/// a weight below zero with `InvalidWeight`, weights that are all zero with
/// `AllWeightsZero`, and else builds the distribution over these weights. It
/// adds the weights up in an `i32`, so the positive ones together have to fit.
#[verifier::external_body]
fn build_table(palette: &[(char, i32)]) -> (made: Result<WeightTable, WeightedError>)
    requires
        positive_weight(palette@) <= i32::MAX,
    ensures
        match made {
            Ok(table) => refusal(palette@) is None && table_weights(table) == weights_of(palette@),
            Err(error) => refusal(palette@) == Some(error),
        },
{
    match WeightedIndex::new(palette.iter().map(|entry| entry.1)) {
        Ok(inner) => Ok(WeightTable { inner }),
        Err(error) => Err(error),
    }
}

/// `WeightedIndex::sample` with the generator `rng`. Taken from its source,
/// not proved: it gives the index of one of the table's weights, and never
/// that of a weight of zero. Which index it gives is left to the generator.
#[verifier::external_body]
fn sample_index(table: &WeightTable, rng: &mut ThreadRng) -> (drawn: usize)
    ensures
        drawn < table_weights(*table).len(),
        table_weights(*table)[drawn as int] > 0,
{
    table.inner.sample(rng)
}

/// The error of this library that stands for an error of `rand`. `rand`
/// gives `TooMany` only where the weights of a built distribution are changed.
pub fn palette_error(error: WeightedError) -> (mapped: PaletteError)
    ensures
        mapped == error_of(error),
{
    match error {
        WeightedError::NoItem => PaletteError::NoItem,
        WeightedError::InvalidWeight => PaletteError::InvalidWeight,
        WeightedError::AllWeightsZero => PaletteError::AllWeightsZero,
        WeightedError::TooMany => PaletteError::TotalTooLarge,
    }
}

/// The positive weights of a prefix add up to no more than those of the whole.
proof fn lemma_positive_weight_prefix(palette: Seq<(char, i32)>, n: int)
    requires
        0 <= n <= palette.len(),
    ensures
        0 <= positive_weight(palette.take(n)) <= positive_weight(palette),
    decreases palette.len() - n,
{
    if n == palette.len() {
        assert(palette.take(n) =~= palette);
        lemma_positive_weight_bounds(palette);
    } else {
        lemma_positive_weight_prefix(palette, n + 1);
        assert(palette.take(n + 1).drop_last() =~= palette.take(n));
        lemma_positive_weight_bounds(palette.take(n));
    }
}

/// The sum of the positive weights is not below zero.
proof fn lemma_positive_weight_bounds(palette: Seq<(char, i32)>)
    ensures
        0 <= positive_weight(palette),
    decreases palette.len(),
{
    if palette.len() > 0 {
        lemma_positive_weight_bounds(palette.drop_last());
    }
}

/// Where no weight is below zero, the positive weights add up to the total weight.
pub proof fn lemma_positive_weight_is_total(palette: Seq<(char, i32)>)
    requires
        !has_negative_weight(palette),
    ensures
        positive_weight(palette) == total_weight(palette),
    decreases palette.len(),
{
    if palette.len() > 0 {
        let rest = palette.drop_last();
        assert forall|k: int| 0 <= k < rest.len() implies (#[trigger] rest[k]).1 >= 0 by {
            assert(rest[k] == palette[k]);
        }
        lemma_positive_weight_is_total(rest);
        assert(palette[palette.len() - 1].1 >= 0);
    }
}

/// A palette can be sampled from exactly where it has an entry, no weight
/// below zero, and a total weight above zero that an `i32` holds.
pub proof fn lemma_fault_free(palette: Seq<(char, i32)>)
    ensures
        palette_fault(palette) is None <==> {
            &&& palette.len() > 0
            &&& !has_negative_weight(palette)
            &&& 0 < total_weight(palette) <= i32::MAX
        },
{
    lemma_positive_weight_bounds(palette);
    if !has_negative_weight(palette) {
        lemma_positive_weight_is_total(palette);
    }
}

/// A palette with at least one entry, only weights above zero, and a total
/// weight that an `i32` holds can be sampled from.
pub proof fn lemma_positive_palette_samples(palette: Seq<(char, i32)>)
    requires
        palette.len() > 0,
        forall|k: int| 0 <= k < palette.len() ==> (#[trigger] palette[k]).1 > 0,
        total_weight(palette) <= i32::MAX,
    ensures
        palette_fault(palette) is None,
{
    lemma_positive_weight_is_total(palette);
    lemma_total_weight_of_positive(palette);
}

/// A character that can be drawn from an expanded palette is named by one
/// of the selections, which gives it a weight above zero.
pub proof fn lemma_drawn_is_declared(selections: Seq<PossibleSelection>, c: char)
    requires
        drawable(expansion(selections), c),
    ensures
        exists|i: int|
            0 <= i < selections.len() && (#[trigger] selections[i]).declares(c)
                && selections[i].weight() > 0,
{
    let palette = expansion(selections);
    let k = choose|k: int|
        0 <= k < palette.len() && (#[trigger] palette[k]).0 == c && palette[k].1 > 0;
    assert(palette.contains(palette[k]));
    lemma_expansion_members(selections, palette[k]);
}

/// A character that a selection names with a weight above zero can be
/// drawn from the expanded palette.
pub proof fn lemma_declared_is_drawable(selections: Seq<PossibleSelection>, i: int, c: char)
    requires
        0 <= i < selections.len(),
        selections[i].declares(c),
        selections[i].weight() > 0,
    ensures
        drawable(expansion(selections), c),
{
    let palette = expansion(selections);
    let entry = (c, selections[i].weight());
    lemma_expansion_covers(selections, i, c);
    let k = choose|k: int| 0 <= k < palette.len() && palette[k] == entry;
    assert(palette[k].0 == c && palette[k].1 > 0);
}

/// Whether the weights of the palette can be added up in an `i32`.
pub fn weights_fit(palette: &[(char, i32)]) -> (fit: bool)
    ensures
        fit == (positive_weight(palette@) <= i32::MAX),
{
    let mut sum: i64 = 0;
    let mut i: usize = 0;
    assert(palette@.take(0) =~= Seq::empty());
    while i < palette.len()
        invariant
            i <= palette.len(),
            sum == positive_weight(palette@.take(i as int)),
            0 <= sum <= i32::MAX,
        decreases palette.len() - i,
    {
        let weight: i32 = palette[i].1;
        proof {
            assert(palette@.take(i + 1).drop_last() =~= palette@.take(i as int));
            lemma_positive_weight_prefix(palette@, i + 1);
        }
        if weight > 0 {
            sum = sum + weight as i64;
            if sum > i32::MAX as i64 {
                return false;
            }
        }
        i = i + 1;
    }
    assert(palette@.take(i as int) =~= palette@);
    true
}

/// A table to draw indices of the palette from, or why there is none.
pub fn weight_table(palette: &[(char, i32)]) -> (made: Result<WeightTable, PaletteError>)
    ensures
        match made {
            Ok(table) => palette_fault(palette@) is None && table_matches(table, palette@),
            Err(error) => palette_fault(palette@) == Some(error),
        },
{
    if !weights_fit(palette) {
        return Err(PaletteError::TotalTooLarge);
    }
    match build_table(palette) {
        Ok(table) => Ok(table),
        Err(error) => Err(palette_error(error)),
    }
}

/// The character that stands at the index `drawn` of the palette.
pub fn resolve(palette: &[(char, i32)], drawn: usize) -> (c: char)
    requires
        drawn < palette@.len(),
    ensures
        c == palette@[drawn as int].0,
{
    palette[drawn].0
}

/// Draws one character of the palette, with the table built from it.
pub fn sample_char(palette: &[(char, i32)], table: &WeightTable, rng: &mut ThreadRng) -> (c: char)
    requires
        table_matches(*table, palette@),
    ensures
        drawable(palette@, c),
{
    let drawn: usize = sample_index(table, rng);
    assert(weights_of(palette@)[drawn as int] == palette@[drawn as int].1);
    resolve(palette, drawn)
}

} // verus!
