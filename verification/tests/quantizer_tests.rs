use ascii_img::cell::{AsciiCell, Foreground};
use ascii_img::color::ansi_24_bit::Ansi24Bit;
use ascii_img::color::ansi_3_bit::Ansi3Bit;
use ascii_img::color::ansi_8_bit::Ansi8Bit;
use ascii_img::color::colorless::Colorless;
use ascii_img::color::Color;
use ascii_img::font::Font;
use ascii_img::pixel::Rgb;
use ascii_img::rational::Rational;

fn one() -> Rational {
    Rational::new(1, 1)
}

fn plain_font() -> Font {
    Font::new(vec![' ', '#'], one(), one()).unwrap()
}

#[test]
fn test_truecolor_fast_path() {
    let font = plain_font();
    let cell = Ansi24Bit::new_cell(Rgb { r: 10, g: 20, b: 30 }, &font);
    assert_eq!(cell.background, Ansi24Bit::new(10, 20, 30));
    assert_eq!(cell.foreground, None);

    let other_font = Font::new(vec!['a', 'b', 'c'], Rational::new(1, 3), one()).unwrap();
    let cell = Ansi24Bit::new_cell(Rgb { r: 10, g: 20, b: 30 }, &other_font);
    assert_eq!(cell.background, Ansi24Bit::new(10, 20, 30));
    assert_eq!(cell.foreground, None);
}

#[test]
fn test_colorless_glyph_selection() {
    let gradient = vec![' ', '.', ':', '-', '=', '+', '*', '#', '%', '@'];
    let font = Font::new(gradient, Rational::new(3, 10), one()).unwrap();

    let white = Colorless::new_cell(Rgb { r: 255, g: 255, b: 255 }, &font);
    assert_eq!(white.foreground, Some(Foreground { color: Colorless, character: '@' }));

    let black = Colorless::new_cell(Rgb { r: 0, g: 0, b: 0 }, &font);
    assert_eq!(black.foreground, Some(Foreground { color: Colorless, character: ' ' }));
}

#[test]
fn test_exhaustive_search_first_minimum_wins() {
    // A pure red target is matched exactly both by (background red, blank
    // glyph) and by (background black, foreground red, full glyph); the
    // enumeration visits the second first, so it wins.
    let font = plain_font();
    let cell = Ansi3Bit::new_cell(Rgb { r: 255, g: 0, b: 0 }, &font);
    assert_eq!(
        cell,
        AsciiCell {
            background: Ansi3Bit::Black,
            foreground: Some(Foreground { color: Ansi3Bit::Red, character: '#' }),
        }
    );
}

#[test]
fn test_blank_glyph_omits_foreground() {
    // A black target is matched exactly by the very first combination:
    // black background with the zero-coverage glyph, so no foreground is
    // stored.
    let font = plain_font();
    let cell = Ansi3Bit::new_cell(Rgb { r: 0, g: 0, b: 0 }, &font);
    assert_eq!(cell, AsciiCell { background: Ansi3Bit::Black, foreground: None });
}

#[test]
fn test_quantizer_is_deterministic() {
    let font = plain_font();
    let target = Rgb { r: 137, g: 61, b: 190 };
    let a = Ansi3Bit::new_cell(target, &font);
    let b = Ansi3Bit::new_cell(target, &font);
    assert_eq!(a, b);
    let a8 = Ansi8Bit::new_cell(target, &font);
    let b8 = Ansi8Bit::new_cell(target, &font);
    assert_eq!(a8, b8);
}

#[test]
fn test_quantizer_matches_palette_color_exactly() {
    // A target that is itself a palette color keeps that color as the
    // background of the chosen cell, or mixes to it exactly.
    let font = Font::new(vec![' '], one(), one()).unwrap();
    let cell = Ansi3Bit::new_cell(Rgb { r: 0, g: 255, b: 255 }, &font);
    assert_eq!(cell, AsciiCell { background: Ansi3Bit::Cyan, foreground: None });
}
