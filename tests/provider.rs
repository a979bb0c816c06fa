use profile_translator::provider::{load_provider, parse_provider};

#[test]
fn provider_file_with_seven() {
    assert_eq!(load_provider(&Some("7".to_string())), Ok(7));
}

#[test]
fn provider_file_text_is_trimmed() {
    assert_eq!(load_provider(&Some(" 7\n".to_string())), Ok(7));
    assert_eq!(load_provider(&Some("-12\r\n".to_string())), Ok(-12));
}

#[test]
fn unreadable_provider_file_gives_zero() {
    assert_eq!(load_provider(&None), Ok(0));
}

#[test]
fn unparsable_provider_is_an_error() {
    assert!(load_provider(&Some("seven".to_string())).is_err());
    assert!(load_provider(&Some("".to_string())).is_err());
}

#[test]
fn parse_provider_values() {
    assert_eq!(parse_provider("0"), Ok(0));
    assert_eq!(parse_provider("+5"), Ok(5));
    assert_eq!(parse_provider("-128"), Ok(-128));
    assert_eq!(parse_provider("127"), Ok(127));
    assert_eq!(parse_provider("007"), Ok(7));
    assert!(parse_provider("128").is_err());
    assert!(parse_provider("-129").is_err());
    assert!(parse_provider("-").is_err());
    assert!(parse_provider("+-1").is_err());
    assert!(parse_provider(" 7").is_err());
    assert!(parse_provider("").is_err());
}
