use gamebot::text::{decimal, replace, starts_with, str_eq};

#[test]
fn replace_replaces_every_occurrence() {
    assert_eq!(replace("a$xb$x", "$x", "yy").as_str(), "ayybyy");
    assert_eq!(replace("aaa", "aa", "b").as_str(), "ba");
    assert_eq!(replace("", "$user", "bob").as_str(), "");
    assert_eq!(replace("no marker", "$user", "bob").as_str(), "no marker");
}

#[test]
fn replace_with_empty_pattern() {
    assert_eq!(replace("abc", "", "-").as_str(), "-a-b-c-");
    assert_eq!(replace("", "", "x").as_str(), "x");
    assert_eq!(replace("é", "", "+"), "é".replace("", "+"));
}

#[test]
fn replace_does_not_rescan_inserted_text() {
    assert_eq!(replace("$a", "$a", "$a$a").as_str(), "$a$a");
}

#[test]
fn replace_agrees_with_std() {
    let cases = [("$user is now playing $game", "$user", "Zoë"), ("xx$u$u", "$u", ""), ("ééé", "é", "e")];
    for (s, p, r) in cases.iter() {
        assert_eq!(replace(s, p, r), s.replace(p, r));
    }
}

#[test]
fn starts_with_and_equality() {
    assert!(starts_with("__TIS-100", "__"));
    assert!(!starts_with("_TIS", "__"));
    assert!(starts_with("abc", ""));
    assert!(!starts_with("a", "ab"));
    assert!(str_eq("TIS-100", "TIS-100"));
    assert!(!str_eq("TIS-100", "TIS-10"));
}

#[test]
fn decimal_writes_numbers() {
    assert_eq!(decimal(0).as_str(), "0");
    assert_eq!(decimal(7).as_str(), "7");
    assert_eq!(decimal(10).as_str(), "10");
    assert_eq!(decimal(1234567890).as_str(), "1234567890");
    assert_eq!(decimal(u64::MAX), u64::MAX.to_string());
}
