use evtx2bodyfile::ancestors::AncestorStack;
use evtx2bodyfile::payload::Payload;
use evtx2bodyfile::text::{
    push_decimal_i64, push_decimal_u64, replace_char, sanitize, str_eq, DELIMITER, PLACEHOLDER,
};

#[test]
fn sanitize_replaces_every_delimiter() {
    assert_eq!(DELIMITER, '|');
    assert_eq!(PLACEHOLDER, '§');
    assert_eq!(sanitize(""), "");
    assert_eq!(sanitize("no delimiter"), "no delimiter");
    assert_eq!(sanitize("|"), "§");
    assert_eq!(sanitize("a|b||c|"), "a§b§§c§");
    assert_eq!(sanitize("C:\\Users\\a|b"), "C:\\Users\\a§b");
    assert_eq!(sanitize("é|日本|§"), "é§日本§§");
    for input in ["|||", "a|b", "x", "||é||"] {
        let output = sanitize(input);
        assert!(!output.contains('|'));
        assert_eq!(output.chars().count(), input.chars().count());
    }
}

#[test]
fn replace_char_replaces_only_the_given_character() {
    assert_eq!(replace_char("banana", 'a', 'o'), "bonono");
    assert_eq!(replace_char("banana", 'x', 'o'), "banana");
    assert_eq!(replace_char("日本語", '本', 'x'), "日x語");
}

#[test]
fn str_eq_compares_characters() {
    assert!(str_eq("", ""));
    assert!(str_eq("System", "System"));
    assert!(!str_eq("System", "system"));
    assert!(!str_eq("System", "Syste"));
    assert!(!str_eq("", "a"));
    assert!(str_eq("é日本", "é日本"));
    assert!(!str_eq("é", "e"));
}

#[test]
fn decimal_text_of_numbers() {
    for n in [0u64, 1, 9, 10, 11, 99, 100, 1609841730, u64::MAX] {
        let mut out = String::from("x");
        push_decimal_u64(&mut out, n);
        assert_eq!(out, format!("x{}", n));
    }
    for n in [0i64, 1, -1, 10, -10, i64::MAX, i64::MIN] {
        let mut out = String::new();
        push_decimal_i64(&mut out, n);
        assert_eq!(out, n.to_string());
    }
}

#[test]
fn payload_keeps_keys_unique_in_order_of_first_arrival() {
    let mut payload = Payload::new();
    assert_eq!(payload.len(), 0);
    assert_eq!(payload.get("a"), None);
    payload.insert("a".to_string(), "1".to_string());
    payload.insert("b".to_string(), "2".to_string());
    payload.insert("a".to_string(), "1".to_string());
    assert_eq!(payload.len(), 2);
    payload.insert("a".to_string(), "3".to_string());
    assert_eq!(payload.len(), 2);
    assert_eq!(payload.get("a").map(|v| v.as_str()), Some("3"));
    assert_eq!(payload.get("b").map(|v| v.as_str()), Some("2"));
    assert_eq!(payload.get("c"), None);
    let first = payload.entry(0).unwrap();
    assert_eq!(payload.entry(2), None);
    assert_eq!((first.0.as_str(), first.1.as_str()), ("a", "3"));
    let copy = payload.clone();
    assert_eq!(copy.len(), 2);
    assert_eq!(copy.get("a").map(|v| v.as_str()), Some("3"));
    assert_eq!(copy.entry(1).unwrap().0.as_str(), "b");
}

#[test]
fn ancestor_stack_follows_the_nesting() {
    let mut stack = AncestorStack::new();
    assert_eq!(stack.depth(), 0);
    assert_eq!(stack.top(), None);
    assert!(!stack.top_is("Event"));
    stack.pop();
    assert_eq!(stack.depth(), 0);
    stack.push("Event");
    stack.push("System");
    assert_eq!(stack.depth(), 2);
    assert_eq!(stack.top(), Some("System"));
    assert!(stack.top_is("System"));
    assert!(!stack.top_is("Event"));
    stack.pop();
    assert_eq!(stack.top(), Some("Event"));
    stack.pop();
    assert_eq!(stack.top(), None);
    stack.pop();
    assert_eq!(stack.depth(), 0);
}
