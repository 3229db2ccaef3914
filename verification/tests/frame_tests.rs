use rand::distributions::WeightedError;
use rand::thread_rng;
use randomart::frame::{generate_image, image_chars};
use randomart::palette::{build_possibilities, expand, PossibleSelection};
use randomart::sampling::{
    palette_error, resolve, sample_char, weight_table, weights_fit, PaletteError,
};

#[test]
fn frame_has_the_size_asked_for() {
    let palette = build_possibilities();
    let image = generate_image(7, 3, &palette, &mut thread_rng()).unwrap();
    assert_eq!(image.len(), 7);
    assert!(image.iter().all(|line| line.len() == 3));
}

#[test]
fn no_columns_give_an_empty_frame() {
    let palette = build_possibilities();
    let image = generate_image(0, 5, &palette, &mut thread_rng());
    assert_eq!(image, Ok(vec![]));
}

#[test]
fn no_rows_give_empty_lines() {
    let palette = build_possibilities();
    let image = generate_image(5, 0, &palette, &mut thread_rng()).unwrap();
    assert_eq!(image, vec![Vec::<char>::new(); 5]);
}

#[test]
fn frame_of_the_largest_width() {
    let palette = build_possibilities();
    let image = generate_image(u16::MAX, 1, &palette, &mut thread_rng()).unwrap();
    assert_eq!(image.len(), 65535);
    assert!(image.iter().all(|line| line.len() == 1));
}

#[test]
fn frame_characters_come_from_the_palette() {
    let palette = build_possibilities();
    let image = generate_image(40, 25, &palette, &mut thread_rng()).unwrap();
    for line in &image {
        for c in line {
            assert!(palette.iter().any(|entry| entry.0 == *c && entry.1 > 0));
        }
    }
}

#[test]
fn weight_zero_is_never_drawn() {
    let palette = vec![('a', 0), ('b', 5), ('c', 0)];
    let image = generate_image(30, 30, &palette, &mut thread_rng()).unwrap();
    assert_eq!(image, vec![vec!['b'; 30]; 30]);
}

#[test]
fn single_entry_fills_the_frame() {
    let image = generate_image(4, 2, &[('#', 1)], &mut thread_rng()).unwrap();
    assert_eq!(image, vec![vec!['#', '#']; 4]);
}

#[test]
fn one_to_three_weights_draw_one_to_three() {
    let palette = expand(&[PossibleSelection::Value('a', 1), PossibleSelection::Value('b', 3)]);
    let image = generate_image(20, 20, &palette, &mut thread_rng()).unwrap();
    let drawn: Vec<char> = image.into_iter().flatten().collect();
    assert_eq!(drawn.len(), 400);
    let a = drawn.iter().filter(|c| **c == 'a').count();
    let b = drawn.iter().filter(|c| **c == 'b').count();
    assert_eq!(a + b, 400);
    assert!((50..=150).contains(&a));
    assert!((250..=350).contains(&b));
}

#[test]
fn space_is_drawn_by_its_weight() {
    let palette = build_possibilities();
    let image = generate_image(1000, 1000, &palette, &mut thread_rng()).unwrap();
    let spaces: usize = image
        .iter()
        .map(|line| line.iter().filter(|c| **c == ' ').count())
        .sum();
    let expected = 1_000_000.0 * 100_000.0 / 101_290.0;
    assert!((spaces as f64 - expected).abs() < 1500.0);
}

#[test]
fn empty_palette_is_refused() {
    assert_eq!(generate_image(3, 3, &[], &mut thread_rng()), Err(PaletteError::NoItem));
}

#[test]
fn empty_palette_is_refused_for_an_empty_frame_too() {
    assert_eq!(generate_image(0, 0, &[], &mut thread_rng()), Err(PaletteError::NoItem));
}

#[test]
fn negative_weight_is_refused() {
    let palette = vec![('a', 4), ('b', -1), ('c', 2)];
    assert_eq!(
        generate_image(3, 3, &palette, &mut thread_rng()),
        Err(PaletteError::InvalidWeight)
    );
    assert_eq!(
        generate_image(3, 3, &[('a', -4)], &mut thread_rng()),
        Err(PaletteError::InvalidWeight)
    );
}

#[test]
fn weights_of_zero_alone_are_refused() {
    let palette = vec![('a', 0), ('b', 0)];
    assert_eq!(
        generate_image(3, 3, &palette, &mut thread_rng()),
        Err(PaletteError::AllWeightsZero)
    );
}

#[test]
fn weights_beyond_an_i32_are_refused() {
    let palette = vec![('a', i32::MAX), ('b', 1)];
    assert_eq!(
        generate_image(3, 3, &palette, &mut thread_rng()),
        Err(PaletteError::TotalTooLarge)
    );
    let palette = vec![('a', i32::MAX), ('b', 1), ('c', -1)];
    assert_eq!(
        generate_image(3, 3, &palette, &mut thread_rng()),
        Err(PaletteError::TotalTooLarge)
    );
}

#[test]
fn weights_that_just_fit_are_accepted() {
    let palette = vec![('a', i32::MAX - 1), ('b', 1)];
    let image = generate_image(2, 2, &palette, &mut thread_rng()).unwrap();
    assert_eq!(image.len(), 2);
    assert!(image.iter().flatten().all(|c| *c == 'a' || *c == 'b'));
    assert!(generate_image(1, 1, &[('a', i32::MAX)], &mut thread_rng()).is_ok());
}

#[test]
fn weights_fit_adds_the_positive_weights() {
    assert!(weights_fit(&[]));
    assert!(weights_fit(&[('a', i32::MAX)]));
    assert!(weights_fit(&[('a', i32::MAX), ('b', 0), ('c', -5)]));
    assert!(weights_fit(&[('a', i32::MAX - 2), ('b', 2)]));
    assert!(!weights_fit(&[('a', i32::MAX - 2), ('b', 3)]));
    assert!(!weights_fit(&[('a', 1), ('b', -1), ('c', i32::MAX)]));
    assert!(weights_fit(&[('a', i32::MIN), ('b', i32::MIN)]));
}

#[test]
fn weight_table_tells_each_fault() {
    assert!(weight_table(&[('a', 1)]).is_ok());
    assert_eq!(weight_table(&[]).err(), Some(PaletteError::NoItem));
    assert_eq!(weight_table(&[('a', 1), ('b', -1)]).err(), Some(PaletteError::InvalidWeight));
    assert_eq!(weight_table(&[('a', 0)]).err(), Some(PaletteError::AllWeightsZero));
    assert_eq!(
        weight_table(&[('a', i32::MAX), ('b', i32::MAX)]).err(),
        Some(PaletteError::TotalTooLarge)
    );
}

#[test]
fn sample_char_draws_from_the_table() {
    let palette = vec![('x', 0), ('y', 0), ('z', 2)];
    let table = weight_table(&palette).ok().unwrap();
    let mut rng = thread_rng();
    for _ in 0..100 {
        assert_eq!(sample_char(&palette, &table, &mut rng), 'z');
    }
}

#[test]
fn palette_error_maps_each_error() {
    assert_eq!(palette_error(WeightedError::NoItem), PaletteError::NoItem);
    assert_eq!(palette_error(WeightedError::InvalidWeight), PaletteError::InvalidWeight);
    assert_eq!(palette_error(WeightedError::AllWeightsZero), PaletteError::AllWeightsZero);
    assert_eq!(palette_error(WeightedError::TooMany), PaletteError::TotalTooLarge);
}

#[test]
fn resolve_gives_the_character_at_the_index() {
    let palette = vec![('a', 1), ('b', 3), ('c', 0)];
    assert_eq!(resolve(&palette, 0), 'a');
    assert_eq!(resolve(&palette, 1), 'b');
    assert_eq!(resolve(&palette, 2), 'c');
}

#[test]
fn image_is_written_line_after_line() {
    let image = vec![vec!['a', 'b'], vec![], vec!['c'], vec!['d', 'e', 'f']];
    assert_eq!(image_chars(&image), vec!['a', 'b', 'c', 'd', 'e', 'f']);
}

#[test]
fn empty_image_writes_nothing() {
    assert_eq!(image_chars(&vec![]), Vec::<char>::new());
    assert_eq!(image_chars(&vec![vec![], vec![]]), Vec::<char>::new());
}

#[test]
fn generated_image_is_written_whole() {
    let palette = build_possibilities();
    let image = generate_image(6, 4, &palette, &mut thread_rng()).unwrap();
    let text = image_chars(&image);
    assert_eq!(text.len(), 24);
    assert_eq!(text[4], image[1][0]);
    assert_eq!(text[23], image[5][3]);
}
