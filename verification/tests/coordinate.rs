use why_rs::coordinate::{is_numeral_text, Coordinate};
use why_rs::text::{chars_of, str_equal, Source};

const SAMPLES: [&str; 64] = [
    "", "0", "1", "-1", "+1", "--1", "+-1", "-", "+", ".", "-.", "1.", ".1", "-.1", "+1.", "1.5",
    "-2.200", "1..2", "1.2.3", "1e5", "1E5", "1e+5", "1e-5", "1e", "1e+", "1e-", "e5", "1e5.5",
    "1.e5", ".e5", ".5e5", "1e5e5", "1 ", " 1", "1,2", "inf", "INF", "Inf", "-inf", "+inf",
    "infinity", "-Infinity", "iNfInItY", "infinit", "infinityy", "in", "nan", "NaN", "-nan", "+NAN",
    "nan1", "1nan", "abc", "0x10", "1_000", "١", "1f64", "00012", "-0", "1e0005", "123456789012345678901234567890",
    "0.000000000000000000000000000000000000000001", "1e999", "\"1\"",
];

#[test]
fn numerals_are_what_the_standard_library_reads_as_floats() {
    for text in SAMPLES {
        assert_eq!(text.parse::<f64>().is_ok(), is_numeral_text(text), "{:?}", text);
    }
}

#[test]
fn a_coordinate_keeps_its_numeral() {
    for text in SAMPLES {
        match Coordinate::parse(text) {
            Some(c) => {
                assert!(text.parse::<f64>().is_ok());
                assert_eq!(text, c.as_str());
                assert_eq!(text, c.clone().as_str());
            }
            None => assert!(text.parse::<f64>().is_err()),
        }
    }
}

#[test]
fn text_that_is_no_numeral_stands_for_zero() {
    assert_eq!("0", Coordinate::zero().as_str());
    assert_eq!("0", Coordinate::parse_or_zero("abc").as_str());
    assert_eq!("0", Coordinate::parse_or_zero("").as_str());
    assert_eq!("-1.520", Coordinate::parse_or_zero("-1.520").as_str());
    assert_eq!(Ok(0.0), Coordinate::parse_or_zero("abc").as_str().parse::<f64>());
    assert_eq!(Ok(-1.52), Coordinate::parse_or_zero("-1.520").as_str().parse::<f64>());
}

#[test]
fn a_source_is_read_by_character() {
    let src = Source::new("aé\"b");
    assert_eq!(4, src.len());
    assert_eq!('é', src.char_at(1));
    assert_eq!("é\"", src.slice(1, 3));
    assert_eq!("", src.slice(2, 2));
    assert_eq!("aé\"b", src.text());
    assert_eq!(vec!['a', 'é', '"', 'b'], chars_of("aé\"b"));
    assert!(str_equal("pos", "pos"));
    assert!(!str_equal("pos", "po"));
    assert!(!str_equal("pos", "pot"));
}
