use prismarine::bridge::{extract_bore_address, parse_bore_output, trim_quotes};
use prismarine::model::BridgeStatus;
use prismarine::text::{contains_text, find_text, split_words};

#[test]
fn address_from_word() {
    assert_eq!(
        extract_bore_address("2024 INFO listening at bore.pub:41234"),
        Some("bore.pub:41234".to_string())
    );
    assert_eq!(
        extract_bore_address("remote_port=\"bore.pub:5555\", ok"),
        Some("remote_port=\"bore.pub:5555".to_string())
    );
    assert_eq!(extract_bore_address("  'bore.pub:7000'.  "), Some("bore.pub:7000".to_string()));
}

#[test]
fn address_after_at() {
    assert_eq!(extract_bore_address("tunnel at bore.pub now"), Some("bore.pub".to_string()));
    assert_eq!(extract_bore_address("tunnel at example.com"), None);
    assert_eq!(extract_bore_address("nothing here"), None);
    assert_eq!(extract_bore_address(""), None);
}

#[test]
fn status_transitions() {
    let mut s = BridgeStatus::Starting;
    parse_bore_output("connecting", &mut s);
    assert_eq!(s, BridgeStatus::Running);
    parse_bore_output("LISTENING at bore.pub:1234", &mut s);
    assert_eq!(s, BridgeStatus::Connected("bore.pub:1234".to_string()));
    parse_bore_output("Error: connection reset", &mut s);
    assert_eq!(s, BridgeStatus::Error("Error: connection reset".to_string()));
    let mut t = BridgeStatus::Stopped;
    parse_bore_output("hello", &mut t);
    assert_eq!(t, BridgeStatus::Stopped);
}

#[test]
fn text_search_helpers() {
    assert_eq!(find_text("a at b at c", " at "), Some(1));
    assert_eq!(find_text("abc", "abcd"), None);
    assert_eq!(find_text("abc", ""), Some(0));
    assert!(contains_text("xxbore.pub:1", "bore.pub:"));
    assert_eq!(split_words("  a\tbb \n c  "), vec!["a", "bb", "c"]);
    assert!(split_words(" \u{3000} ").is_empty());
    assert_eq!(trim_quotes("\"..x,'"), "x");
    assert_eq!(trim_quotes(".,"), "");
}
