use math_lib::generator::{
    count_in_name, count_of_capture, random_numbers, read_count, spaced, CountError,
};

#[test]
fn the_count_is_the_last_number_of_the_name() {
    assert_eq!(Ok(1000000), count_in_name("test_case_1000000.txt"));
    assert_eq!(Ok(10), count_in_name("data/2024/test_10.txt"));
    assert_eq!(Ok(7), count_in_name("7"));
    assert_eq!(Ok(5), count_in_name("a1b005c"));
}

#[test]
fn a_name_without_a_number_gives_no_count() {
    assert_eq!(Err(CountError::Missing), count_in_name("test_case.txt"));
    assert_eq!(Err(CountError::Missing), count_in_name(""));
    assert_eq!(Err(CountError::Missing), count_in_name("dir10/test.txt"));
}

#[test]
fn a_number_that_does_not_fit_gives_no_count() {
    assert_eq!(
        Err(CountError::Unreadable),
        count_in_name("test_99999999999999999999999999999999.txt")
    );
    assert_eq!(Err(CountError::Unreadable), count_in_name("test_١٢٣.txt"));
}

#[test]
fn a_capture_is_read_as_a_count() {
    assert_eq!(Ok(42), count_of_capture(Some("42".to_string())));
    assert_eq!(Err(CountError::Missing), count_of_capture(None));
    assert_eq!(Err(CountError::Unreadable), count_of_capture(Some("4x2".to_string())));
    assert_eq!(Err(CountError::Unreadable), count_of_capture(Some(String::new())));
}

#[test]
fn digits_are_read_as_a_count() {
    assert_eq!(Some(0), read_count("0"));
    assert_eq!(Some(12), read_count("0012"));
    assert_eq!(Some(usize::MAX), read_count(&usize::MAX.to_string()));
    assert_eq!(None, read_count(&format!("{}0", usize::MAX)));
    assert_eq!(None, read_count(&(usize::MAX as u128 + 1).to_string()));
    assert_eq!(None, read_count(""));
    assert_eq!(None, read_count("+5"));
    assert_eq!(None, read_count("-5"));
    assert_eq!(None, read_count("5 "));
}

#[test]
fn random_numbers_are_within_their_bounds() {
    let numbers = random_numbers(1000, -3, 3);
    assert_eq!(1000, numbers.len());
    assert!(numbers.iter().all(|number| -3 <= *number && *number <= 3));
    assert!(numbers.iter().any(|number| *number != -3));
    assert!(numbers.iter().any(|number| *number != 3));
    assert_eq!(vec![5, 5, 5], random_numbers(3, 5, 5));
    assert_eq!(Vec::<i64>::new(), random_numbers(0, 0, 1));
    let wide = random_numbers(10, i64::MIN, i64::MAX);
    assert_eq!(10, wide.len());
}

#[test]
fn numbers_are_written_with_spaces_between() {
    assert_eq!("", spaced(&vec![]));
    assert_eq!("7", spaced(&vec![7]));
    assert_eq!("1 -2 30 0", spaced(&vec![1, -2, 30, 0]));
    assert_eq!(
        "-9223372036854775808 9223372036854775807",
        spaced(&vec![i64::MIN, i64::MAX])
    );
}
