use ascii_img::font::Font;
use ascii_img::rational::Rational;

fn half() -> Rational {
    Rational::new(1, 2)
}

fn one() -> Rational {
    Rational::new(1, 1)
}

#[test]
fn test_font_rejects_empty_gradient() {
    let r = Font::new(Vec::new(), half(), one());
    assert_eq!(r.unwrap_err(), Vec::new());
}

#[test]
fn test_font_rejects_zero_coverage() {
    let r = Font::new(vec!['a'], Rational { num: 0, den: 1 }, one());
    assert_eq!(r.unwrap_err(), vec!['a']);
}

#[test]
fn test_font_rejects_coverage_above_one() {
    let r = Font::new(vec!['a'], Rational::new(3, 2), one());
    assert_eq!(r.unwrap_err(), vec!['a']);
}

#[test]
fn test_font_rejects_zero_aspect_ratio() {
    let r = Font::new(vec!['a'], half(), Rational { num: 0, den: 1 });
    assert_eq!(r.unwrap_err(), vec!['a']);
}

#[test]
fn test_font_accepts_valid_configuration() {
    let font = Font::new(vec!['a'], half(), one()).unwrap();
    assert_eq!(font.gradient(), &vec!['a']);
    assert!(font.max_coverage().eq_value(&half()));
    assert!(font.aspect_ratio().eq_value(&one()));
}

#[test]
fn test_coverage_endpoints_and_values() {
    let font = Font::new(vec!['a', 'b', 'c', 'd', 'e'], half(), one()).unwrap();
    assert!(font.coverage(0).is_zero());
    assert!(font.coverage(2).eq_value(&Rational::new(1, 4)));
    assert!(font.coverage(4).eq_value(&half()));
    // Out-of-range indices saturate at the maximum coverage.
    assert!(font.coverage(7).eq_value(&half()));
}

#[test]
fn test_coverage_is_non_decreasing() {
    let font = Font::new(vec!['a', 'b', 'c', 'd', 'e', 'f', 'g'], Rational::new(3, 10), one())
        .unwrap();
    let mut i: usize = 0;
    while i + 1 < 9 {
        let lo = font.coverage(i);
        let hi = font.coverage(i + 1);
        assert!(lo.le_value(&hi));
        i += 1;
    }
}

#[test]
fn test_single_glyph_coverage_is_zero_then_max() {
    let font = Font::new(vec!['x'], half(), one()).unwrap();
    assert!(font.coverage(0).is_zero());
    assert!(font.coverage(1).eq_value(&half()));
}
