use inject::text::{str_eq, to_ascii_lower, unraw};

#[test]
fn str_eq_compares_characters() {
    assert!(str_eq("bool", "bool"));
    assert!(!str_eq("bool", "boo"));
    assert!(!str_eq("i32", "f32"));
    assert!(str_eq("", ""));
}

#[test]
fn unraw_strips_raw_marker() {
    assert_eq!(unraw("r#type"), "type");
    assert_eq!(unraw("player"), "player");
    assert_eq!(unraw("r"), "r");
    assert_eq!(unraw("r#"), "");
    assert_eq!(unraw("rx"), "rx");
}

#[test]
fn ascii_lowercase_of_type_signature() {
    assert_eq!(to_ascii_lower('I'), 'i');
    assert_eq!(to_ascii_lower('L'), 'l');
    assert_eq!(to_ascii_lower('z'), 'z');
    assert_eq!(to_ascii_lower('_'), '_');
}
