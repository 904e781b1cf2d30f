use ascii_img::color::ansi_24_bit::Ansi24Bit;
use ascii_img::color::ansi_3_bit::Ansi3Bit;
use ascii_img::color::ansi_4_bit::Ansi4Bit;
use ascii_img::color::ansi_8_bit::Ansi8Bit;
use ascii_img::color::colorless::Colorless;

#[test]
fn test_cardinalities() {
    assert_eq!(Colorless::cardinality(), 1);
    assert_eq!(Ansi3Bit::cardinality(), 8);
    assert_eq!(Ansi4Bit::cardinality(), 16);
    assert_eq!(Ansi8Bit::cardinality(), 256);
    assert_eq!(Ansi24Bit::cardinality(), 16_777_216);
}

#[test]
fn test_enumeration_lengths_match_cardinalities() {
    assert_eq!(Ansi3Bit::all().len() as u64, Ansi3Bit::cardinality());
    assert_eq!(Ansi4Bit::all().len() as u64, Ansi4Bit::cardinality());
    assert_eq!(Ansi8Bit::all().len() as u64, Ansi8Bit::cardinality());
}
