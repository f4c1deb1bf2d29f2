use span_storage::storage::Storage;
use span_storage::value::FieldValue;

#[test]
fn empty_store_has_no_fields() {
    let s = Storage::new();
    assert_eq!(s.len(), 0);
    assert_eq!(s.get("anything"), None);
}

#[test]
fn record_each_kind() {
    let mut s = Storage::new();
    s.record_i64("i", -7);
    s.record_u64("u", 7);
    s.record_f64("f", 2.5_f64.to_bits());
    s.record_bool("b", true);
    s.record_str("s", "hello");
    assert_eq!(s.get("i"), Some(&FieldValue::I64(-7)));
    assert_eq!(s.get("u"), Some(&FieldValue::U64(7)));
    assert_eq!(s.get("f"), Some(&FieldValue::F64Bits(2.5_f64.to_bits())));
    assert_eq!(s.get("b"), Some(&FieldValue::Bool(true)));
    assert_eq!(s.get("s"), Some(&FieldValue::Str("hello".to_string())));
    assert_eq!(s.len(), 5);
    match s.get("f") {
        Some(&FieldValue::F64Bits(bits)) => assert_eq!(f64::from_bits(bits), 2.5),
        other => panic!("unexpected value {other:?}"),
    }
}

#[test]
fn last_write_wins() {
    let mut s = Storage::new();
    s.record_i64("x", 1);
    s.record_i64("x", 2);
    s.record_str("x", "three");
    assert_eq!(s.get("x"), Some(&FieldValue::Str("three".to_string())));
    assert_eq!(s.len(), 1);
}

#[test]
fn reserved_write_is_dropped() {
    let mut s = Storage::with_reserved(vec!["level".to_string(), "target".to_string()]);
    s.record_i64("level", 3);
    s.record_str("target", "somewhere");
    assert_eq!(s.get("level"), None);
    assert_eq!(s.get("target"), None);
    assert_eq!(s.len(), 0);
    // A write to a reserved name also never replaces what is under it.
    s.record_i64("kept", 1);
    s.record_value("level", FieldValue::Bool(true));
    assert_eq!(s.len(), 1);
    assert_eq!(s.get("kept"), Some(&FieldValue::I64(1)));
}

#[test]
fn is_reserved_consults_the_set() {
    let s = Storage::with_reserved(vec!["level".to_string()]);
    assert!(s.is_reserved("level"));
    assert!(!s.is_reserved("message"));
}

#[test]
fn action_from_sentinel_tag() {
    let mut s = Storage::new();
    s.record_action_and_category("OUTGOING_API_CALL");
    assert_eq!(
        s.get("action"),
        Some(&FieldValue::Str("outgoingApiTag".to_string()))
    );
}

#[test]
fn action_from_other_tag() {
    let mut s = Storage::new();
    s.record_action_and_category("X");
    assert_eq!(s.get("action"), Some(&FieldValue::Str("X".to_string())));
}

#[test]
fn category_defaults_to_null() {
    let mut s = Storage::new();
    s.record_action_and_category("X");
    assert_eq!(s.get("category"), Some(&FieldValue::Str("null".to_string())));
}

#[test]
fn category_kept_when_already_a_string() {
    let mut s = Storage::new();
    s.record_str("category", "payments");
    s.record_action_and_category("X");
    assert_eq!(
        s.get("category"),
        Some(&FieldValue::Str("payments".to_string()))
    );
}

#[test]
fn category_not_a_string_becomes_null() {
    let mut s = Storage::new();
    s.record_i64("category", 42);
    s.record_action_and_category("X");
    assert_eq!(s.get("category"), Some(&FieldValue::Str("null".to_string())));
}

#[test]
fn additional_values_are_written() {
    let mut s = Storage::new();
    s.record_additional_values();
    assert_eq!(
        s.get("message_number"),
        Some(&FieldValue::Str("1".to_string()))
    );
    assert_eq!(s.get("latency"), Some(&FieldValue::I64(123)));
    assert_eq!(s.get("is_art_enabled"), Some(&FieldValue::Bool(true)));
    assert_eq!(
        s.get("error_code"),
        Some(&FieldValue::Str("ERR123".to_string()))
    );
    assert_eq!(s.len(), 4);
}

#[test]
fn debug_name_with_raw_escape_is_unescaped() {
    let mut s = Storage::new();
    s.record_debug("r#type", "\"card\"".to_string());
    assert_eq!(s.get("type"), Some(&FieldValue::Str("\"card\"".to_string())));
    assert_eq!(s.get("r#type"), None);
}

#[test]
fn debug_name_with_internal_marker_is_dropped() {
    let mut s = Storage::new();
    s.record_debug("log.target", "module".to_string());
    assert_eq!(s.get("log.target"), None);
    assert_eq!(s.len(), 0);
}

#[test]
fn debug_plain_name_is_stored() {
    let mut s = Storage::new();
    s.record_debug("detail", "Span { id: 4 }".to_string());
    assert_eq!(
        s.get("detail"),
        Some(&FieldValue::Str("Span { id: 4 }".to_string()))
    );
}

#[test]
fn clone_is_a_value_copy() {
    let mut a = Storage::with_reserved(vec!["level".to_string()]);
    a.record_i64("x", 1);
    let mut b = a.clone();
    assert_eq!(b.get("x"), Some(&FieldValue::I64(1)));
    // The clone carries the reserved set too.
    b.record_i64("level", 9);
    assert_eq!(b.get("level"), None);
    // Mutating either store never shows in the other.
    b.record_i64("y", 2);
    a.record_i64("x", 10);
    assert_eq!(a.get("y"), None);
    assert_eq!(a.get("x"), Some(&FieldValue::I64(10)));
    assert_eq!(b.get("x"), Some(&FieldValue::I64(1)));
}

#[test]
fn default_is_empty() {
    let s = Storage::default();
    assert_eq!(s.len(), 0);
}
