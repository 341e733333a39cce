use access_filter::parse::parse_number;
use access_filter::parse::parse_pair;
use access_filter::server::MyError;
use access_filter::server::Server;
use access_filter::severity_for;
use access_filter::util::file_exists;
use access_filter::Severity;

#[test]
fn parses_plain_numbers() {
    assert_eq!(parse_number("0"), Some(0));
    assert_eq!(parse_number("123"), Some(123));
    assert_eq!(parse_number("+7"), Some(7));
}

#[test]
fn refuses_non_numbers() {
    assert_eq!(parse_number(""), None);
    assert_eq!(parse_number("+"), None);
    assert_eq!(parse_number("12a"), None);
    assert_eq!(parse_number("-3"), None);
    assert_eq!(parse_number(" 5"), None);
}

#[test]
fn parses_up_to_the_largest_value() {
    assert_eq!(parse_number("18446744073709551615"), Some(u64::MAX));
    assert_eq!(parse_number("18446744073709551616"), None);
    assert_eq!(parse_number("99999999999999999999999"), None);
}

#[test]
fn parses_dimension_pairs() {
    assert_eq!(parse_pair("400x600", 'x'), Some((400, 600)));
    assert_eq!(parse_pair("10,20", ','), Some((10, 20)));
}

#[test]
fn refuses_malformed_pairs() {
    assert_eq!(parse_pair("", 'x'), None);
    assert_eq!(parse_pair("400", 'x'), None);
    assert_eq!(parse_pair("x600", 'x'), None);
    assert_eq!(parse_pair("400x", 'x'), None);
    assert_eq!(parse_pair("4,2", 'x'), None);
}

#[test]
fn splits_at_the_first_separator() {
    assert_eq!(parse_pair("1x2x3", 'x'), None);
    assert_eq!(parse_pair("1x23", 'x'), Some((1, 23)));
}

#[test]
fn empty_path_never_exists() {
    assert!(!file_exists(""));
}

#[test]
fn missing_path_does_not_exist() {
    assert!(!file_exists("/no/such/file/anywhere.txt"));
}

#[test]
fn root_path_exists() {
    assert!(file_exists("/"));
}

#[test]
fn severity_threshold_is_five_hundred() {
    assert_eq!(severity_for(499), Severity::Info);
    assert_eq!(severity_for(500), Severity::Error);
    assert_eq!(severity_for(u16::MAX), Severity::Error);
    assert_eq!(severity_for(0), Severity::Info);
}

#[test]
fn error_message_carries_its_name() {
    let e = MyError { name: "boom" };
    assert_eq!(e.message(), "my error: boom");
}

#[test]
fn server_handle_builds() {
    let _s = Server::new();
}
