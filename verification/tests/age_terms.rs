use cat_registry::args::{Age, ParseError};

#[test]
fn concrete_age_is_read() {
    assert_eq!(Age::from_str("5"), Ok(Age::Concrete(5)));
    assert_eq!(Age::from_str("0"), Ok(Age::Concrete(0)));
    assert_eq!(Age::from_str("007"), Ok(Age::Concrete(7)));
    assert_eq!(Age::from_str("+12"), Ok(Age::Concrete(12)));
    assert_eq!(Age::from_str("4294967295"), Ok(Age::Concrete(u32::MAX)));
    assert_eq!(Age::from_str("000000000004294967295"), Ok(Age::Concrete(u32::MAX)));
}

#[test]
fn range_is_split_at_the_first_dash() {
    assert_eq!(Age::from_str("5-12"), Ok(Age::Range(5, 12)));
    assert_eq!(Age::from_str("3-7"), Ok(Age::Range(3, 7)));
    assert_eq!(Age::from_str("+1-+2"), Ok(Age::Range(1, 2)));
    assert_eq!(Age::from_str("0-4294967295"), Ok(Age::Range(0, u32::MAX)));
    assert_eq!(Age::from_str("1-2-3"), Err(ParseError::InvalidDigit));
    assert_eq!(Age::from_str("1--2"), Err(ParseError::InvalidDigit));
}

#[test]
fn range_bounds_need_no_order() {
    assert_eq!(Age::from_str("9-2"), Ok(Age::Range(9, 2)));
    assert_eq!(Age::from_str("4-4"), Ok(Age::Range(4, 4)));
}

#[test]
fn parse_goes_through_from_str() {
    assert_eq!("3-7".parse::<Age>(), Ok(Age::Range(3, 7)));
    assert_eq!("x".parse::<Age>(), Err(ParseError::InvalidDigit));
}

#[test]
fn empty_number_is_refused() {
    assert_eq!(Age::from_str(""), Err(ParseError::Empty));
    assert_eq!(Age::from_str("-"), Err(ParseError::Empty));
    assert_eq!(Age::from_str("-5"), Err(ParseError::Empty));
    assert_eq!(Age::from_str("5-"), Err(ParseError::Empty));
}

#[test]
fn character_that_is_no_digit_is_refused() {
    for term in ["x", "5x", " 5", "5 ", "+", "++5", "3-+", "3-x", "x-3", "1.5", "٣", "5\u{2013}7", "0x10"] {
        assert_eq!(Age::from_str(term), Err(ParseError::InvalidDigit), "{term}");
    }
}

#[test]
fn number_above_the_range_is_refused() {
    assert_eq!(Age::from_str("4294967296"), Err(ParseError::TooLarge));
    assert_eq!(Age::from_str("99999999999999999999999"), Err(ParseError::TooLarge));
    assert_eq!(Age::from_str("1-4294967296"), Err(ParseError::TooLarge));
    assert_eq!(Age::from_str("4294967296-1"), Err(ParseError::TooLarge));
}

#[test]
fn what_fails_first_decides() {
    assert_eq!(Age::from_str("99999999999x"), Err(ParseError::TooLarge));
    assert_eq!(Age::from_str("4294967295x"), Err(ParseError::InvalidDigit));
    assert_eq!(Age::from_str("x99999999999"), Err(ParseError::InvalidDigit));
    assert_eq!(Age::from_str("x-99999999999"), Err(ParseError::InvalidDigit));
    assert_eq!(Age::from_str("99999999999-x"), Err(ParseError::TooLarge));
    assert_eq!(Age::from_str("-99999999999"), Err(ParseError::Empty));
}

#[test]
fn numbers_are_read_as_the_standard_library_reads_them() {
    let samples = [
        "", "0", "1", "+0", "+", "-", "-0", "12", "0012", "4294967295", "4294967296",
        "42949672950", "+4294967295", "+4294967296", "1a", "a1", "1 ", " 1", "١", "1_000",
        "99999999999x", "4294967295x", "00000000000000000000000000001",
    ];
    for sample in samples {
        let expected = match sample.parse::<u32>() {
            Ok(n) => Ok(Age::Concrete(n)),
            Err(e) => Err(match e.kind() {
                std::num::IntErrorKind::Empty => ParseError::Empty,
                std::num::IntErrorKind::InvalidDigit => ParseError::InvalidDigit,
                std::num::IntErrorKind::PosOverflow => ParseError::TooLarge,
                other => panic!("{other:?}"),
            }),
        };
        if !sample.contains('-') {
            assert_eq!(Age::from_str(sample), expected, "{sample:?}");
        }
    }
}

#[test]
fn messages_of_the_errors() {
    assert_eq!(ParseError::Empty.message(), "cannot parse integer from empty string");
    assert_eq!(ParseError::InvalidDigit.message(), "invalid digit found in string");
    assert_eq!(ParseError::TooLarge.message(), "number too large to fit in target type");
    assert_eq!(ParseError::Conflict.message(), "a breed cannot be given together with no breed");
    assert_eq!(ParseError::Empty.message(), "".parse::<u32>().unwrap_err().to_string());
    assert_eq!(ParseError::InvalidDigit.message(), "x".parse::<u32>().unwrap_err().to_string());
    assert_eq!(ParseError::TooLarge.message(), "4294967296".parse::<u32>().unwrap_err().to_string());
}

#[test]
fn age_term_matches() {
    assert!(Age::Concrete(5).matches(5));
    assert!(!Age::Concrete(5).matches(4));
    assert!(!Age::Concrete(5).matches(6));
    assert!(Age::Range(3, 7).matches(3));
    assert!(Age::Range(3, 7).matches(5));
    assert!(Age::Range(3, 7).matches(7));
    assert!(!Age::Range(3, 7).matches(2));
    assert!(!Age::Range(3, 7).matches(8));
    assert!(Age::Range(4, 4).matches(4));
    for age in [0, 3, 5, 7, u32::MAX] {
        assert!(!Age::Range(7, 3).matches(age));
    }
}
