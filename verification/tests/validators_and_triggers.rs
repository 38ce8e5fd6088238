use fa::Trigger;
use fa::regex_validator;
use fa::u16_validator;

#[test]
fn u16_validator_accepts_small_decimals() {
    assert_eq!(u16_validator(String::from("0")), Ok(()));
    assert_eq!(u16_validator(String::from("42")), Ok(()));
    assert_eq!(u16_validator(String::from("65535")), Ok(()));
    assert_eq!(u16_validator(String::from("+123")), Ok(()));
    assert_eq!(u16_validator(String::from("000065535")), Ok(()));
}

#[test]
fn u16_validator_rejects_out_of_range_and_junk() {
    let msg = String::from("Argument must be a non-negative integer");
    assert_eq!(u16_validator(String::from("65536")), Err(msg.clone()));
    assert_eq!(u16_validator(String::from("99999999999")), Err(msg.clone()));
    assert_eq!(u16_validator(String::from("")), Err(msg.clone()));
    assert_eq!(u16_validator(String::from("+")), Err(msg.clone()));
    assert_eq!(u16_validator(String::from("abc")), Err(msg.clone()));
    assert_eq!(u16_validator(String::from("-1")), Err(msg.clone()));
    assert_eq!(u16_validator(String::from(" 1")), Err(msg.clone()));
    assert_eq!(u16_validator(String::from("1 ")), Err(msg));
}

#[test]
fn u16_validator_matches_std_parsing() {
    for s in ["0", "65535", "65536", "+7", "-7", "", "12a", "007"] {
        let expected = s.parse::<u16>().is_ok();
        assert_eq!(u16_validator(String::from(s)).is_ok(), expected, "on {:?}", s);
    }
}

#[test]
fn regex_validator_accepts_valid_patterns() {
    assert_eq!(regex_validator(String::from("^foo.*bar$")), Ok(()));
    assert_eq!(regex_validator(String::from("MATCH")), Ok(()));
}

#[test]
fn regex_validator_rejects_invalid_patterns() {
    let msg = String::from("Invalid regular expression");
    assert_eq!(regex_validator(String::from("a(b")), Err(msg.clone()));
    assert_eq!(regex_validator(String::from("[")), Err(msg));
}

#[test]
fn trigger_compilation_follows_pattern_validity() {
    assert!(Trigger::new("^a+$").is_some());
    assert!(Trigger::new("a(b").is_none());
}

#[test]
fn trigger_matches_anywhere_in_the_line() {
    let t = Trigger::new("^a+$").unwrap();
    assert!(t.is_match("aaa"));
    assert!(!t.is_match("b"));
    assert!(!t.is_match(""));

    let t = Trigger::new("ERROR").unwrap();
    assert!(t.is_match("2024 ERROR: disk full\n"));
    assert!(!t.is_match("2024 WARN: low disk\n"));
    assert_eq!(t.pattern_str(), "ERROR");
}
