use ascii_img::color::ansi_24_bit::Ansi24Bit;
use ascii_img::color::colorless::Colorless;
use ascii_img::color::util::average_color;
use ascii_img::font::Font;
use ascii_img::image::AsciiImage;
use ascii_img::pixel::{PixelGrid, Rgba};
use ascii_img::rational::Rational;

fn px(r: u8, g: u8, b: u8) -> Rgba {
    Rgba { r, g, b, a: 255 }
}

fn one() -> Rational {
    Rational::new(1, 1)
}

fn plain_font() -> Font {
    Font::new(vec![' ', '#'], one(), one()).unwrap()
}

#[test]
fn test_pixel_grid_rejects_wrong_length() {
    let data = vec![px(0, 0, 0); 3];
    let rejected = match PixelGrid::from_pixels(2, 2, data.clone()) {
        Err(d) => d,
        Ok(_) => panic!("a three-pixel sequence must not fill a 2 x 2 grid"),
    };
    assert_eq!(rejected, data);
}

#[test]
fn test_average_color_truncates() {
    let grid = PixelGrid::from_pixels(
        2,
        2,
        vec![px(0, 0, 0), px(255, 255, 255), px(100, 50, 25), px(50, 100, 75)],
    )
    .unwrap();
    let avg = average_color(&grid, 0, 0, 2, 2);
    assert_eq!((avg.r, avg.g, avg.b, avg.a), (101, 101, 88, 255));
}

#[test]
fn test_average_color_sub_rectangle() {
    let grid = PixelGrid::from_pixels(
        2,
        2,
        vec![px(10, 20, 30), px(200, 200, 200), px(12, 24, 36), px(200, 200, 200)],
    )
    .unwrap();
    // Left column only.
    let avg = average_color(&grid, 0, 0, 1, 2);
    assert_eq!((avg.r, avg.g, avg.b), (11, 22, 33));
}

#[test]
fn test_from_image_with_dimensions_single_cell() {
    let grid = PixelGrid::from_pixels(
        2,
        2,
        vec![px(0, 0, 0), px(255, 255, 255), px(100, 50, 25), px(50, 100, 75)],
    )
    .unwrap();
    let font = plain_font();
    let image: AsciiImage<Ansi24Bit> = AsciiImage::from_image_with_dimensions(&grid, &font, 1, 1);
    assert_eq!(image.width(), 1);
    assert_eq!(image.height(), 1);
    assert_eq!(image.cells()[0].background, Ansi24Bit::new(101, 101, 88));
}

#[test]
fn test_from_image_with_dimensions_tiles_exactly() {
    // Four pixels, four cells: each cell samples exactly one pixel.
    let grid = PixelGrid::from_pixels(
        2,
        2,
        vec![px(1, 2, 3), px(4, 5, 6), px(7, 8, 9), px(10, 11, 12)],
    )
    .unwrap();
    let font = plain_font();
    let image: AsciiImage<Ansi24Bit> = AsciiImage::from_image_with_dimensions(&grid, &font, 2, 2);
    let cells = image.cells();
    assert_eq!(cells[0].background, Ansi24Bit::new(1, 2, 3));
    assert_eq!(cells[1].background, Ansi24Bit::new(4, 5, 6));
    assert_eq!(cells[2].background, Ansi24Bit::new(7, 8, 9));
    assert_eq!(cells[3].background, Ansi24Bit::new(10, 11, 12));
}

#[test]
fn test_from_image_with_dimensions_zero_area() {
    let grid = PixelGrid::from_pixels(2, 2, vec![px(0, 0, 0); 4]).unwrap();
    let font = plain_font();
    let image: AsciiImage<Ansi24Bit> = AsciiImage::from_image_with_dimensions(&grid, &font, 0, 7);
    assert_eq!(image.width(), 0);
    assert_eq!(image.height(), 0);
    assert_eq!(image.cells().len(), 0);
}

#[test]
fn test_from_image_with_width_derives_height() {
    // An 8 x 4 source with a half-as-wide-as-tall glyph cell: at width 8,
    // the derived height is round(8 * (4/8) * (1/2)) = 2.
    let grid = PixelGrid::from_pixels(8, 4, vec![px(9, 9, 9); 32]).unwrap();
    let font = Font::new(vec![' ', '#'], one(), Rational::new(1, 2)).unwrap();
    let image: AsciiImage<Ansi24Bit> = AsciiImage::from_image_with_width(&grid, &font, 8);
    assert_eq!(image.width(), 8);
    assert_eq!(image.height(), 2);
}

#[test]
fn test_from_image_with_height_derives_width() {
    // An 8 x 4 source with a twice-as-wide-as-tall glyph cell: at height 4,
    // the derived width is round(4 * (8/4) / 2) = 4.
    let grid = PixelGrid::from_pixels(8, 4, vec![px(9, 9, 9); 32]).unwrap();
    let font = Font::new(vec![' ', '#'], one(), Rational::new(2, 1)).unwrap();
    let image: AsciiImage<Ansi24Bit> = AsciiImage::from_image_with_height(&grid, &font, 4);
    assert_eq!(image.width(), 4);
    assert_eq!(image.height(), 4);
}

#[test]
fn test_from_image_auto_dimensions() {
    let grid = PixelGrid::from_pixels(6, 2, vec![px(9, 9, 9); 12]).unwrap();
    // A square glyph cell keeps the source dimensions unchanged.
    let font = plain_font();
    let image: AsciiImage<Ansi24Bit> = AsciiImage::from_image(&grid, &font);
    assert_eq!((image.width(), image.height()), (6, 2));
    // A tall glyph cell (aspect 1/2) keeps the width and halves the height.
    let tall = Font::new(vec![' ', '#'], one(), Rational::new(1, 2)).unwrap();
    let image: AsciiImage<Ansi24Bit> = AsciiImage::from_image(&grid, &tall);
    assert_eq!((image.width(), image.height()), (6, 1));
    // A wide glyph cell (aspect 2/1) keeps the height and halves the width.
    let wide = Font::new(vec![' ', '#'], one(), Rational::new(2, 1)).unwrap();
    let image: AsciiImage<Ansi24Bit> = AsciiImage::from_image(&grid, &wide);
    assert_eq!((image.width(), image.height()), (3, 2));
}

#[test]
fn test_colorless_pipeline_end_to_end() {
    // A left-black, right-white source at two cells wide renders a dark
    // glyph then a bright glyph.
    let grid = PixelGrid::from_pixels(
        2,
        1,
        vec![px(0, 0, 0), px(255, 255, 255)],
    )
    .unwrap();
    let font = Font::new(vec![' ', '@'], one(), one()).unwrap();
    let image: AsciiImage<Colorless> = AsciiImage::from_image_with_dimensions(&grid, &font, 2, 1);
    assert_eq!(image.line(0).unwrap(), " @\x1b[0m");
}
