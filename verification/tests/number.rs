use math_lib::Number;

#[test]
fn a_number_is_what_parses_as_one() {
    let texts = [
        "", ".", "..", "1", "1.", ".5", "1.5", "1.5.5", "0", "007", "12.50", "1..2", ".1.", "123456789",
        "0.000001", "99999999999999999999999999999999", "5.", "..5",
    ];
    for text in texts {
        assert_eq!(text.parse::<f64>().is_ok(), Number::new(text).is_some(), "{:?}", text);
    }
}

#[test]
fn a_comma_is_a_decimal_point() {
    assert_eq!(Number::new("1.5"), Number::new("1,5"));
    assert_eq!("1.5", Number::new("1,5").unwrap().text());
    assert_eq!(None, Number::new("1,5,5"));
    assert_eq!(None, Number::new("1,5.5"));
    assert_eq!(".5", Number::new(",5").unwrap().text());
}

#[test]
fn other_characters_make_no_number() {
    assert_eq!(None, Number::new("-1"));
    assert_eq!(None, Number::new("+1"));
    assert_eq!(None, Number::new("1e5"));
    assert_eq!(None, Number::new(" 1"));
    assert_eq!(None, Number::new("١"));
}

#[test]
fn one_is_written_with_one_digit() {
    assert_eq!("1", Number::one().text());
    assert_eq!(Number::new("1"), Some(Number::one()));
    assert_eq!(Number::one(), Number::one().clone());
}

#[test]
fn scan_reads_a_part_of_the_characters() {
    let chars: Vec<char> = "12,5+3".chars().collect();
    assert_eq!("12.5", Number::scan(&chars, 0, 4).unwrap().text());
    assert_eq!("2.", Number::scan(&chars, 1, 3).unwrap().text());
    assert_eq!(None, Number::scan(&chars, 2, 3));
    assert_eq!(None, Number::scan(&chars, 2, 2));
}
