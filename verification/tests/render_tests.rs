use ascii_img::cell::{AsciiCell, Foreground};
use ascii_img::color::ansi_24_bit::Ansi24Bit;
use ascii_img::color::ansi_3_bit::Ansi3Bit;
use ascii_img::color::ansi_8_bit::cube::Cube;
use ascii_img::color::ansi_8_bit::Ansi8Bit;
use ascii_img::color::colorless::Colorless;
use ascii_img::image::AsciiImage;

fn plain<C>(background: C) -> AsciiCell<C> {
    AsciiCell { background, foreground: None }
}

#[test]
fn test_row_diff_minimality() {
    // Four cells sharing one background and no foreground: one escape
    // sequence up front, three plain spaces, one trailing reset.
    let cells = vec![plain(Ansi3Bit::Red); 4];
    let image = AsciiImage::from_cells(cells, 4, 1).unwrap();
    assert_eq!(image.line(0).unwrap(), "\x1b[41m    \x1b[0m");
}

#[test]
fn test_grid_invariant_preservation() {
    let six = vec![plain(Ansi3Bit::Black); 6];
    let image = AsciiImage::from_cells(six, 3, 2).unwrap();
    assert_eq!(image.height(), 2);
    assert_eq!(image.width(), 3);

    let five = vec![plain(Ansi3Bit::Black); 5];
    let rejected = AsciiImage::from_cells(five.clone(), 3, 2).unwrap_err();
    assert_eq!(rejected, five);

    let seven = vec![plain(Ansi3Bit::Black); 7];
    let rejected = AsciiImage::from_cells(seven.clone(), 3, 2).unwrap_err();
    assert_eq!(rejected, seven);
}

#[test]
fn test_background_change_emits_new_code() {
    let cells = vec![plain(Ansi3Bit::Red), plain(Ansi3Bit::Blue), plain(Ansi3Bit::Blue)];
    let image = AsciiImage::from_cells(cells, 3, 1).unwrap();
    assert_eq!(image.line(0).unwrap(), "\x1b[41m \x1b[44m  \x1b[0m");
}

#[test]
fn test_foreground_glyph_rendering() {
    let cell = AsciiCell {
        background: Ansi8Bit::Cube(Cube::new(0, 0, 0)),
        foreground: Some(Foreground { color: Ansi8Bit::Cube(Cube::new(5, 5, 5)), character: 'X' }),
    };
    let image = AsciiImage::from_cells(vec![cell], 1, 1).unwrap();
    assert_eq!(image.line(0).unwrap(), "\x1b[48;5;16;38;5;231mX\x1b[0m");
}

#[test]
fn test_unchanged_foreground_is_not_reemitted() {
    let fg = Some(Foreground { color: Ansi3Bit::White, character: '#' });
    let cells = vec![
        AsciiCell { background: Ansi3Bit::Black, foreground: fg },
        AsciiCell { background: Ansi3Bit::Black, foreground: fg },
    ];
    let image = AsciiImage::from_cells(cells, 2, 1).unwrap();
    // The second cell repeats both colors, so only its glyph is written.
    assert_eq!(image.line(0).unwrap(), "\x1b[40;37m##\x1b[0m");
}

#[test]
fn test_foreground_survives_a_blank_cell() {
    let fg = Some(Foreground { color: Ansi3Bit::White, character: '#' });
    let cells = vec![
        AsciiCell { background: Ansi3Bit::Black, foreground: fg },
        AsciiCell { background: Ansi3Bit::Black, foreground: None },
        AsciiCell { background: Ansi3Bit::Black, foreground: fg },
    ];
    let image = AsciiImage::from_cells(cells, 3, 1).unwrap();
    // The terminal's foreground is still white at the third cell, so no
    // foreground code is emitted again.
    assert_eq!(image.line(0).unwrap(), "\x1b[40;37m# #\x1b[0m");
}

#[test]
fn test_colorless_rows_render_bare_glyphs() {
    let cells = vec![
        AsciiCell {
            background: Colorless,
            foreground: Some(Foreground { color: Colorless, character: 'a' }),
        },
        AsciiCell {
            background: Colorless,
            foreground: Some(Foreground { color: Colorless, character: 'b' }),
        },
    ];
    let image = AsciiImage::from_cells(cells, 2, 1).unwrap();
    assert_eq!(image.line(0).unwrap(), "ab\x1b[0m");
}

#[test]
fn test_rows_are_independent() {
    let cells = vec![plain(Ansi3Bit::Green); 4];
    let image = AsciiImage::from_cells(cells, 2, 2).unwrap();
    let lines = image.lines();
    assert_eq!(lines.len(), 2);
    // The second row re-emits the background even though the first row
    // already selected it: every row starts from a clean state.
    assert_eq!(lines[0], "\x1b[42m  \x1b[0m");
    assert_eq!(lines[1], "\x1b[42m  \x1b[0m");
}

#[test]
fn test_line_out_of_range_is_none() {
    let image = AsciiImage::from_cells(vec![plain(Ansi3Bit::Red)], 1, 1).unwrap();
    assert_eq!(image.line(1), None);
    let empty: AsciiImage<Ansi3Bit> = AsciiImage::new();
    assert_eq!(empty.line(0), None);
    assert_eq!(empty.lines().len(), 0);
}

#[test]
fn test_truecolor_escape_parameters() {
    let image = AsciiImage::from_cells(vec![plain(Ansi24Bit::new(1, 22, 255))], 1, 1).unwrap();
    assert_eq!(image.line(0).unwrap(), "\x1b[48;2;1;22;255m \x1b[0m");
}

#[test]
fn test_cells_accessors() {
    let mut image = AsciiImage::from_cells(vec![plain(Ansi3Bit::Red); 2], 2, 1).unwrap();
    assert_eq!(image.cells().len(), 2);
    image.cells_mut()[0] = plain(Ansi3Bit::Blue);
    assert_eq!(image.cells()[0], plain(Ansi3Bit::Blue));
    assert_eq!(image.line(0).unwrap(), "\x1b[44m \x1b[41m \x1b[0m");
}
