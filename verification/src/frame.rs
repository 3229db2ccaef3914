//! Frames: grids of characters drawn from a palette, and the order in which
//! a frame is written out.

use crate::sampling::{
    drawable, palette_fault, sample_char, table_matches, weight_table, PaletteError,
};
use rand::rngs::ThreadRng;
use vstd::prelude::*;

verus! {

/// Whether `image` is a grid of `cols` lines of `rows` characters each.
pub open spec fn is_grid(image: Seq<Vec<char>>, cols: int, rows: int) -> bool {
    &&& image.len() == cols
    &&& forall|x: int| 0 <= x < image.len() ==> (#[trigger] image[x])@.len() == rows
}

/// Whether every character of `image` can be drawn from the palette.
pub open spec fn drawn_from(image: Seq<Vec<char>>, palette: Seq<(char, i32)>) -> bool {
    forall|x: int, y: int|
        0 <= x < image.len() && 0 <= y < image[x]@.len() ==> drawable(
            palette,
            #[trigger] image[x]@[y],
        )
}

/// The characters of `image` in the order in which they are written out:
/// line after line, each from its first character to its last.
pub open spec fn image_text(image: Seq<Vec<char>>) -> Seq<char> {
    image.map_values(|line: Vec<char>| line@).flatten()
}

/// Generate the randomart image: `cols` lines of `rows` characters, each
/// drawn from the palette by its weight, independently of the others. A
/// palette that cannot be sampled from is refused, whatever the size asked for.
pub fn generate_image(
    cols: u16,
    rows: u16,
    possible_chars: &[(char, i32)],
    rng: &mut ThreadRng,
) -> (made: Result<Vec<Vec<char>>, PaletteError>)
    ensures
        match made {
            Ok(image) => {
                &&& palette_fault(possible_chars@) is None
                &&& is_grid(image@, cols as int, rows as int)
                &&& drawn_from(image@, possible_chars@)
            },
            Err(error) => palette_fault(possible_chars@) == Some(error),
        },
{
    let mut framebuf: Vec<Vec<char>> = Vec::with_capacity(cols as usize);
    let table = match weight_table(possible_chars) {
        Ok(table) => table,
        Err(error) => {
            return Err(error);
        },
    };
    let mut x: u16 = 0;
    while x < cols
        invariant
            x <= cols,
            table_matches(table, possible_chars@),
            is_grid(framebuf@, x as int, rows as int),
            drawn_from(framebuf@, possible_chars@),
        decreases cols - x,
    {
        let mut line: Vec<char> = Vec::with_capacity(rows as usize);
        let mut y: u16 = 0;
        while y < rows
            invariant
                y <= rows,
                table_matches(table, possible_chars@),
                line@.len() == y,
                forall|k: int| 0 <= k < line@.len() ==> drawable(possible_chars@, #[trigger] line@[k]),
            decreases rows - y,
        {
            let randchar: char = sample_char(possible_chars, &table, rng);
            line.push(randchar);
            y = y + 1;
        }
        framebuf.push(line);
        x = x + 1;
    }
    Ok(framebuf)
}

/// The characters of the image in the order in which they are written out.
pub fn image_chars(image: &Vec<Vec<char>>) -> (text: Vec<char>)
    ensures
        text@ == image_text(image@),
{
    let mut text: Vec<char> = Vec::new();
    let mut x: usize = 0;
    assert(image@.take(0) =~= Seq::empty());
    while x < image.len()
        invariant
            x <= image.len(),
            text@ == image_text(image@.take(x as int)),
        decreases image.len() - x,
    {
        let line = &image[x];
        let ghost before = text@;
        let mut y: usize = 0;
        while y < line.len()
            invariant
                y <= line.len(),
                text@ == before + line@.take(y as int),
            decreases line.len() - y,
        {
            text.push(line[y]);
            assert(line@.take(y + 1) =~= line@.take(y as int).push(line@[y as int]));
            y = y + 1;
        }
        proof {
            let views = |line: Vec<char>| line@;
            let done = image@.take(x as int);
            assert(line@.take(y as int) =~= line@);
            assert(image@.take(x + 1) =~= done.push(*line));
            done.lemma_push_map_commute(views, *line);
            done.map_values(views).lemma_flatten_push(line@);
            assert(done.push(*line).map_values(views) == done.map_values(views).push(line@));
        }
        x = x + 1;
    }
    assert(image@.take(x as int) =~= image@);
    text
}

} // verus!
