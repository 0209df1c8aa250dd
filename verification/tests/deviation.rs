use math_lib::deviation::prepare_to_parse;

#[test]
fn deviation_of_five_numbers() {
    let result = prepare_to_parse("1 2 3 4 5".to_string());
    assert_eq!(result, "2√(1/4*(1^2+2^2+3^2+4^2+5^2-1/5*(1+2+3+4+5)^2))");
}

#[test]
fn deviation_of_one_number() {
    assert_eq!("2√(1/0*(5^2-1/1*(5)^2))", prepare_to_parse("5".to_string()));
}

#[test]
fn deviation_counts_in_decimal() {
    let input = "1 2 3 4 5 6 7 8 9 10 11 12".to_string();
    assert_eq!(
        "2√(1/11*(1^2+2^2+3^2+4^2+5^2+6^2+7^2+8^2+9^2+10^2+11^2+12^2-1/12*(1+2+3+4+5+6+7+8+9+10+11+12)^2))",
        prepare_to_parse(input)
    );
    let hundred = vec!["7"; 100].join(" ");
    let expression = prepare_to_parse(hundred);
    assert!(expression.starts_with("2√(1/99*(7^2+"));
    assert!(expression.contains("-1/100*(7+"));
}

#[test]
fn deviation_splits_at_any_white_space() {
    assert_eq!(
        "2√(1/2*(1.5^2+2,5^2+x^2-1/3*(1.5+2,5+x)^2))",
        prepare_to_parse("\n\t 1.5\u{a0}\u{3000}2,5\r\nx \u{2003}".to_string())
    );
}

#[test]
fn deviation_has_the_length_of_its_parts() {
    let input = "10 200 3000";
    let expression = prepare_to_parse(input.to_string());
    assert_eq!(17 + 4 * 3 + 2 * 9 + 1 + 1, expression.len());
}
