//! Exact scalar arithmetic, unit conversion, and literal parsing.

use billiards::parse::{parse_decimal, ParseDecimalError};
use billiards::{Diamond, Inches, Ratio, TableSpec};

#[test]
fn ratio_arithmetic_is_exact() {
    let third = Ratio::new(1, 3);
    let sixth = Ratio::new(1, 6);
    assert_eq!(third.add(sixth), Ratio::new(1, 2));
    assert_eq!(third.sub(sixth), sixth);
    assert_eq!(third.mul(sixth), Ratio::new(1, 18));
    assert_eq!(third.div(sixth), Ratio::new(2, 1));
    assert_eq!(third.neg(), Ratio::new(-1, 3));
    assert_eq!(third.double(), Ratio::new(2, 3));
    assert_eq!(third.half(), Ratio::new(1, 6));
    assert_eq!(third.recip(), Ratio::new(3, 1));
    assert!(sixth.lt(third));
    assert!(sixth.le(sixth));
    assert!(!third.lt(sixth));
}

#[test]
fn ratio_equality_ignores_representation() {
    assert_eq!(Ratio { n: 2, d: 4 }, Ratio { n: 1, d: 2 });
    assert_eq!(Ratio { n: -3, d: 6 }, Ratio { n: -1, d: 2 });
    assert_ne!(Ratio { n: 1, d: 2 }, Ratio { n: 1, d: 3 });
}

#[test]
fn diamond_constructors_count_up() {
    assert_eq!(Diamond::zero().magnitude, Ratio::new(0, 1));
    assert_eq!(Diamond::one().magnitude, Ratio::new(1, 1));
    assert_eq!(Diamond::two().magnitude, Ratio::new(2, 1));
    assert_eq!(Diamond::three().magnitude, Ratio::new(3, 1));
    assert_eq!(Diamond::four().magnitude, Ratio::new(4, 1));
    assert_eq!(Diamond::five().magnitude, Ratio::new(5, 1));
    assert_eq!(Diamond::six().magnitude, Ratio::new(6, 1));
    assert_eq!(Diamond::seven().magnitude, Ratio::new(7, 1));
    assert_eq!(Diamond::eight().magnitude, Ratio::new(8, 1));
    assert_eq!(Diamond::from(3u8), Diamond::three());
}

#[test]
fn diamond_algebra() {
    let d = Diamond::three();
    assert_eq!(d.double(), Diamond::six());
    assert_eq!(d.half().double(), d);
    assert_eq!(d.inverse(), Diamond { magnitude: Ratio::new(1, 3) });
    assert_eq!(d.neg().neg(), d);
    assert_eq!(Diamond::two().add(Diamond::five()), Diamond::seven());
    assert_eq!(Diamond::seven().sub(Diamond::five()), Diamond::two());
    assert_eq!(d.scale(Ratio::new(4, 3)), Diamond::four());
}

#[test]
fn unit_round_trip_is_exact() {
    // Diamonds to inches and back is the identity, exactly, even for
    // awkward values and an awkward table scale.
    let table = TableSpec::from_diamond_length(Inches { magnitude: Ratio::new(37, 3) }).unwrap();
    let values = [
        Ratio::new(0, 1),
        Ratio::new(7, 3),
        Ratio::new(-22, 7),
        Ratio::new(12345, 23),
    ];
    for v in values {
        let d = Diamond { magnitude: v };
        assert_eq!(table.inches_to_diamond(table.diamond_to_inches(d)), d);
    }
}

#[test]
fn brunswick_table_is_derived_from_its_scale() {
    let t = TableSpec::brunswick_gc4_9ft();
    assert_eq!(t.diamond_length.magnitude, Ratio::new(25, 2));
    // 3.6875 in / 12.5 in = 0.295 diamonds of cushion buffer.
    assert_eq!(t.cushion_diamond_buffer.magnitude, Ratio::new(59, 200));
    // 1.4 in deep, 4.5 in corner mouths, 5 in side mouths.
    for p in &t.pockets {
        assert_eq!(p.depth.magnitude, Ratio::new(14, 125));
    }
    assert_eq!(t.pockets[0].width.magnitude, Ratio::new(9, 25));
    assert_eq!(t.pockets[1].width.magnitude, Ratio::new(2, 5));
    assert_eq!(t.pockets[4].width.magnitude, Ratio::new(2, 5));
    assert_eq!(t.pockets[5].width.magnitude, Ratio::new(9, 25));
}

#[test]
fn zero_or_negative_scale_is_rejected_at_construction() {
    let zero = TableSpec::from_diamond_length(Inches::from_int(0));
    assert!(matches!(zero, Err(billiards::GeometryError::NonPositiveDiamondLength)));
    let negative = TableSpec::from_diamond_length(Inches { magnitude: Ratio::new(-5, 1) });
    assert!(matches!(negative, Err(billiards::GeometryError::NonPositiveDiamondLength)));
    let ok = TableSpec::from_diamond_length(Inches::from_int(10)).unwrap();
    assert_eq!(ok.cushion_diamond_buffer.magnitude, Ratio::new(59, 160));
    assert_eq!(ok.pockets[0].width.magnitude, Ratio::new(9, 20));
}

#[test]
fn parses_plain_and_fractional_literals() {
    assert_eq!(parse_decimal("12.5").unwrap(), Ratio::new(25, 2));
    assert_eq!(parse_decimal("-3.6875").unwrap(), Ratio::new(-59, 16));
    assert_eq!(parse_decimal("+0.295").unwrap(), Ratio::new(59, 200));
    assert_eq!(parse_decimal("1.125").unwrap(), Ratio::new(9, 8));
    assert_eq!(parse_decimal("42").unwrap(), Ratio::new(42, 1));
    assert_eq!(parse_decimal(".5").unwrap(), Ratio::new(1, 2));
    assert_eq!(parse_decimal("7.").unwrap(), Ratio::new(7, 1));
    assert_eq!(parse_decimal("-0").unwrap(), Ratio::new(0, 1));
    assert_eq!(parse_decimal("00012.5000").unwrap(), Ratio::new(25, 2));
}

#[test]
fn rejects_malformed_literals() {
    assert_eq!(parse_decimal(""), Err(ParseDecimalError::Empty));
    assert_eq!(parse_decimal("+"), Err(ParseDecimalError::Empty));
    assert_eq!(parse_decimal("-"), Err(ParseDecimalError::Empty));
    assert_eq!(parse_decimal("."), Err(ParseDecimalError::InvalidCharacter));
    assert_eq!(parse_decimal("12a"), Err(ParseDecimalError::InvalidCharacter));
    assert_eq!(parse_decimal("1.2.3"), Err(ParseDecimalError::InvalidCharacter));
    assert_eq!(parse_decimal(" 12"), Err(ParseDecimalError::InvalidCharacter));
    assert_eq!(parse_decimal("--1"), Err(ParseDecimalError::InvalidCharacter));
    assert_eq!(parse_decimal("1e5"), Err(ParseDecimalError::InvalidCharacter));
}

#[test]
fn rejects_oversized_literals() {
    // More than the stored range can hold.
    assert_eq!(
        parse_decimal("99999999999999999999"),
        Err(ParseDecimalError::OutOfRange)
    );
    // Nineteen fractional digits: one too many.
    assert_eq!(
        parse_decimal("0.0000000000000000001"),
        Err(ParseDecimalError::OutOfRange)
    );
    // Eighteen fractional digits still fit.
    assert_eq!(
        parse_decimal("0.000000000000000001").unwrap(),
        Ratio::new(1, 1_000_000_000_000_000_000)
    );
    // The largest mantissa that fits, and the first one that does not.
    assert_eq!(
        parse_decimal("9223372036854775807").unwrap(),
        Ratio::new(i64::MAX, 1)
    );
    assert_eq!(
        parse_decimal("9223372036854775808"),
        Err(ParseDecimalError::OutOfRange)
    );
}

#[test]
fn unit_literal_constructors() {
    assert_eq!(
        Diamond::from_decimal_str("2.5").unwrap(),
        Diamond { magnitude: Ratio::new(5, 2) }
    );
    assert_eq!(
        Inches::from_decimal_str("1.125").unwrap(),
        Inches { magnitude: Ratio::new(9, 8) }
    );
    assert_eq!(
        Diamond::from_decimal_str("4x"),
        Err(ParseDecimalError::InvalidCharacter)
    );
    assert_eq!(Inches::from_decimal_str(""), Err(ParseDecimalError::Empty));
}

#[test]
fn inches_algebra() {
    let r = Inches { magnitude: Ratio::new(9, 8) };
    assert_eq!(r.double(), Inches { magnitude: Ratio::new(9, 4) });
    assert_eq!(r.half(), Inches { magnitude: Ratio::new(9, 16) });
    assert_eq!(r.neg().neg(), r);
    assert_eq!(r.add(r), r.double());
    assert_eq!(r.double().sub(r), r);
    assert_eq!(r.div_by(Ratio::new(3, 1)), Inches { magnitude: Ratio::new(3, 8) });
    assert!(r.lt(r.double()));
    assert!(r.le(r));
}
