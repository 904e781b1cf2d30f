use ascii_img::color::ansi_24_bit::Ansi24Bit;
use ascii_img::color::ansi_3_bit::Ansi3Bit;
use ascii_img::color::ansi_4_bit::Ansi4Bit;
use ascii_img::color::ansi_8_bit::cube::Cube;
use ascii_img::color::ansi_8_bit::cube_coordinate::CubeCoordinate;
use ascii_img::color::ansi_8_bit::grayscale::Grayscale;
use ascii_img::color::ansi_8_bit::Ansi8Bit;
use ascii_img::color::Color;
use ascii_img::color::ColorValue;
use ascii_img::pixel::Rgb;

#[test]
fn test_round_trip_3_bit() {
    for c in Ansi3Bit::all() {
        assert_eq!(Ansi3Bit::from_rgb(c.to_rgb()), c);
    }
}

#[test]
fn test_round_trip_4_bit() {
    for c in Ansi4Bit::all() {
        assert_eq!(Ansi4Bit::from_rgb(c.to_rgb()), c);
    }
}

#[test]
fn test_round_trip_8_bit() {
    for c in Ansi8Bit::all() {
        let back = Ansi8Bit::from_rgb(c.to_rgb());
        assert!(back.same(&c));
    }
}

#[test]
fn test_round_trip_cube_and_grayscale() {
    for c in Cube::all() {
        assert_eq!(Cube::from_rgb(c.to_rgb()), c);
    }
    for c in Grayscale::all() {
        assert_eq!(Grayscale::from_rgb(c.to_rgb()), c);
    }
}

#[test]
fn test_round_trip_24_bit() {
    let c = Ansi24Bit::new(12, 200, 7);
    assert_eq!(Ansi24Bit::from_rgb(c.to_rgb()), c);
}

#[test]
fn test_from_rgb_picks_nearest() {
    assert_eq!(Ansi3Bit::from_rgb(Rgb { r: 200, g: 10, b: 10 }), Ansi3Bit::Red);
    assert_eq!(Ansi3Bit::from_rgb(Rgb { r: 20, g: 30, b: 10 }), Ansi3Bit::Black);
    assert_eq!(Ansi3Bit::from_rgb(Rgb { r: 240, g: 250, b: 230 }), Ansi3Bit::White);
}

#[test]
fn test_from_rgb_8_bit_achromatic() {
    // (100, 100, 100) is exactly ramp step 9's gray level, and no earlier
    // enumerated color denotes it.
    let c = Ansi8Bit::from_rgb(Rgb { r: 100, g: 100, b: 100 });
    assert_eq!(c, Ansi8Bit::Grayscale(Grayscale { brightness: 9 }));
    // (85, 85, 85) is bright black itself, which the enumeration reaches
    // before any ramp step.
    let c = Ansi8Bit::from_rgb(Rgb { r: 85, g: 85, b: 85 });
    assert_eq!(c, Ansi8Bit::Ansi4Bit(Ansi4Bit { is_bright: true, color: Ansi3Bit::Black }));
}

#[test]
fn test_from_rgb_grayscale_picks_nearest_step() {
    // For pure red the nearest ramp step by squared distance is level 89
    // (step 8), not the luminance-matched level 55 (step 5).
    assert_eq!(Grayscale::from_rgb(Rgb { r: 255, g: 0, b: 0 }), Grayscale::new(8));
}

#[test]
fn test_cube_to_rgb_levels() {
    let c = Cube::new(5, 0, 3);
    assert_eq!(c.to_rgb(), Rgb { r: 255, g: 0, b: 153 });
}

#[test]
fn test_grayscale_to_rgb_levels() {
    assert_eq!(Grayscale::new(0).to_rgb(), Rgb { r: 0, g: 0, b: 0 });
    assert_eq!(Grayscale::new(23).to_rgb(), Rgb { r: 255, g: 255, b: 255 });
    assert_eq!(Grayscale::new(8).to_rgb(), Rgb { r: 89, g: 89, b: 89 });
}

#[test]
fn test_clamping_constructors() {
    assert_eq!(CubeCoordinate::new(9).get(), 5);
    assert_eq!(CubeCoordinate::try_new(9), None);
    assert_eq!(CubeCoordinate::try_new(4).unwrap().get(), 4);
    assert_eq!(Grayscale::new(40).brightness(), 23);
    assert_eq!(Grayscale::try_new(40), None);
    assert_eq!(Grayscale::try_new(11).unwrap().brightness(), 11);
}

#[test]
fn test_write_params() {
    let mut out: Vec<u8> = Vec::new();
    Ansi3Bit::Yellow.write_background(&mut out);
    assert_eq!(out, vec![43]);

    let mut out: Vec<u8> = Vec::new();
    Ansi4Bit::new_bright(Ansi3Bit::Cyan).write_foreground(&mut out);
    assert_eq!(out, vec![96]);

    let mut out: Vec<u8> = Vec::new();
    Ansi8Bit::Cube(Cube::new(5, 0, 0)).write_background(&mut out);
    assert_eq!(out, vec![48, 5, 196]);

    let mut out: Vec<u8> = Vec::new();
    Ansi8Bit::Grayscale(Grayscale::new(7)).write_foreground(&mut out);
    assert_eq!(out, vec![38, 5, 239]);

    let mut out: Vec<u8> = Vec::new();
    Ansi24Bit::new(1, 2, 3).write_background(&mut out);
    assert_eq!(out, vec![48, 2, 1, 2, 3]);
}

#[test]
fn test_8_bit_same_compares_by_rgb() {
    let black4 = Ansi8Bit::Ansi4Bit(Ansi4Bit { is_bright: false, color: Ansi3Bit::Black });
    let black_gray = Ansi8Bit::Grayscale(Grayscale::new(0));
    assert!(black4.same(&black_gray));
    let bright_red = Ansi8Bit::Ansi4Bit(Ansi4Bit { is_bright: true, color: Ansi3Bit::Red });
    let cube_red = Ansi8Bit::Cube(Cube::new(5, 0, 0));
    assert!(bright_red.same(&cube_red));
    assert!(!black4.same(&cube_red));
}
