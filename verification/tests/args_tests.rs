use http_bench::args::{parse_count, parse_input_arguments, ArgumentError, Arguments};

fn args(list: &[&str]) -> Vec<String> {
    list.iter().map(|s| String::from(*s)).collect()
}

fn parsed(list: &[&str]) -> Arguments {
    parse_input_arguments(&args(list)).unwrap().unwrap()
}

#[test]
fn usage_word_asks_for_help() {
    assert_eq!(parse_input_arguments(&args(&["usage"])), Ok(None));
}

#[test]
fn wrong_argument_count_is_rejected() {
    assert_eq!(parse_input_arguments(&args(&[])), Err(ArgumentError::WrongArgumentCount));
    assert_eq!(parse_input_arguments(&args(&["3"])), Err(ArgumentError::WrongArgumentCount));
    assert_eq!(
        parse_input_arguments(&args(&["3", "https://example.com", "extra"])),
        Err(ArgumentError::WrongArgumentCount)
    );
}

#[test]
fn non_numeric_count_is_rejected_before_any_request() {
    // validation needs no client at all: a rejected input never reaches one
    for bad in ["abc", "", "1x", "x1", "-1", "1.5", "++2", "+"] {
        assert_eq!(
            parse_input_arguments(&args(&[bad, "https://example.com"])),
            Err(ArgumentError::NotANumber),
            "count {:?}",
            bad
        );
    }
}

#[test]
fn count_overflowing_usize_is_not_a_number() {
    assert_eq!(
        parse_input_arguments(&args(&["99999999999999999999999999", "https://example.com"])),
        Err(ArgumentError::NotANumber)
    );
}

#[test]
fn count_outside_one_to_ten_is_rejected() {
    for bad in ["0", "11", "100"] {
        assert_eq!(
            parse_input_arguments(&args(&[bad, "https://example.com"])),
            Err(ArgumentError::CountOutOfRange),
            "count {:?}",
            bad
        );
    }
}

#[test]
fn every_count_in_range_is_accepted() {
    for n in 1..=10usize {
        let a = parsed(&[&n.to_string(), "https://example.com"]);
        assert_eq!(a.number_of_requests, n);
    }
}

#[test]
fn leading_plus_sign_is_accepted() {
    let a = parsed(&["+5", "https://example.com"]);
    assert_eq!(a.number_of_requests, 5);
}

#[test]
fn malformed_uri_is_rejected() {
    assert_eq!(
        parse_input_arguments(&args(&["3", ""])),
        Err(ArgumentError::InvalidUri)
    );
    assert_eq!(
        parse_input_arguments(&args(&["3", "https://exa mple.com"])),
        Err(ArgumentError::InvalidUri)
    );
}

#[test]
fn relative_uri_is_rejected() {
    assert_eq!(
        parse_input_arguments(&args(&["3", "/hello/world"])),
        Err(ArgumentError::NotAbsoluteUri)
    );
    assert_eq!(
        parse_input_arguments(&args(&["3", "example.com"])),
        Err(ArgumentError::NotAbsoluteUri)
    );
}

#[test]
fn valid_input_is_passed_through() {
    let a = parsed(&["3", "https://some-2-example-12-url.com"]);
    assert_eq!(a.number_of_requests, 3);
    assert_eq!(a.uri, "https://some-2-example-12-url.com");
}

#[test]
fn parse_count_reads_plain_numerals() {
    assert_eq!(parse_count("0"), Some(0));
    assert_eq!(parse_count("10"), Some(10));
    assert_eq!(parse_count("007"), Some(7));
    assert_eq!(parse_count("18446744073709551615"), Some(usize::MAX));
    assert_eq!(parse_count("18446744073709551616"), None);
    assert_eq!(parse_count("two"), None);
}
