use span_storage::lifecycle::{ScopeState, StorageSubscription};
use span_storage::storage::Storage;
use span_storage::value::{FieldInput, FieldValue};

fn no_fields() -> Vec<(String, FieldInput)> {
    Vec::new()
}

#[test]
fn root_scope_starts_empty() {
    let sub = StorageSubscription::new(Vec::new());
    let scope = sub.on_new_span(None, &no_fields());
    assert_eq!(scope.store.len(), 0);
    assert!(scope.started_at.is_none());
}

#[test]
fn creation_fields_are_applied() {
    let sub = StorageSubscription::new(Vec::new());
    let fields = vec![
        ("x".to_string(), FieldInput::I64(1)),
        ("r#type".to_string(), FieldInput::Debug("\"card\"".to_string())),
        ("log.line".to_string(), FieldInput::Debug("17".to_string())),
    ];
    let scope = sub.on_new_span(None, &fields);
    assert_eq!(scope.store.get("x"), Some(&FieldValue::I64(1)));
    assert_eq!(
        scope.store.get("type"),
        Some(&FieldValue::Str("\"card\"".to_string()))
    );
    assert_eq!(scope.store.get("log.line"), None);
    assert_eq!(scope.store.len(), 2);
}

#[test]
fn child_inherits_parent_fields_at_creation() {
    let sub = StorageSubscription::new(Vec::new());
    let mut parent = sub.on_new_span(None, &vec![("x".to_string(), FieldInput::I64(1))]);
    let child = sub.on_new_span(
        Some(&parent.store),
        &vec![("y".to_string(), FieldInput::I64(2))],
    );
    assert_eq!(child.store.get("x"), Some(&FieldValue::I64(1)));
    assert_eq!(child.store.get("y"), Some(&FieldValue::I64(2)));
    assert_eq!(child.store.len(), 2);
    // A later write to the parent never shows in the child, nor the
    // child's earlier write in the parent.
    parent.store.record_i64("x", 100);
    assert_eq!(child.store.get("x"), Some(&FieldValue::I64(1)));
    assert_eq!(parent.store.get("y"), None);
}

#[test]
fn child_inherits_reserved_names() {
    let sub = StorageSubscription::new(vec!["level".to_string()]);
    let parent = sub.on_new_span(None, &no_fields());
    let mut child = sub.on_new_span(Some(&parent.store), &no_fields());
    child.store.record_i64("level", 5);
    assert_eq!(child.store.get("level"), None);
}

#[test]
fn reserved_creation_fields_are_dropped() {
    let sub = StorageSubscription::new(vec!["level".to_string()]);
    let scope = sub.on_new_span(
        None,
        &vec![
            ("level".to_string(), FieldInput::I64(5)),
            ("ok".to_string(), FieldInput::Bool(true)),
        ],
    );
    assert_eq!(scope.store.get("level"), None);
    assert_eq!(scope.store.get("ok"), Some(&FieldValue::Bool(true)));
}

#[test]
fn on_record_adds_fields_to_existing_scope() {
    let sub = StorageSubscription::new(Vec::new());
    let mut scope = sub.on_new_span(None, &vec![("x".to_string(), FieldInput::I64(1))]);
    sub.on_record(
        &mut scope,
        &vec![("msg".to_string(), FieldInput::Str("hi".to_string()))],
    );
    assert_eq!(scope.store.get("x"), Some(&FieldValue::I64(1)));
    assert_eq!(scope.store.get("msg"), Some(&FieldValue::Str("hi".to_string())));
}

#[test]
fn enter_is_idempotent() {
    let sub = StorageSubscription::new(Vec::new());
    let mut scope = sub.on_new_span(None, &no_fields());
    sub.on_enter(&mut scope, 10);
    assert_eq!(scope.started_at, Some(10));
    sub.on_enter(&mut scope, 25);
    assert_eq!(scope.started_at, Some(10));
}

#[test]
fn elapsed_is_measured_from_first_entry() {
    let sub = StorageSubscription::new(Vec::new());
    let mut scope = sub.on_new_span(None, &no_fields());
    sub.on_enter(&mut scope, 10);
    sub.on_enter(&mut scope, 25);
    sub.on_close(&mut scope, 30);
    assert_eq!(
        scope.store.get("elapsed_milliseconds"),
        Some(&FieldValue::U64(20))
    );
}

#[test]
fn close_without_enter_reports_zero() {
    let sub = StorageSubscription::new(Vec::new());
    let mut scope = sub.on_new_span(None, &no_fields());
    sub.on_close(&mut scope, 77);
    assert_eq!(
        scope.store.get("elapsed_milliseconds"),
        Some(&FieldValue::U64(0))
    );
}

#[test]
fn close_skips_elapsed_where_its_name_is_reserved() {
    let sub = StorageSubscription::new(vec!["elapsed_milliseconds".to_string()]);
    let mut scope = sub.on_new_span(None, &no_fields());
    sub.on_enter(&mut scope, 1);
    sub.on_close(&mut scope, 9);
    assert_eq!(scope.store.get("elapsed_milliseconds"), None);
}

#[test]
fn scope_state_can_be_built_around_any_store() {
    let sub = StorageSubscription::new(Vec::new());
    let mut store = Storage::new();
    store.record_bool("warm", true);
    let mut scope = ScopeState {
        store,
        started_at: None,
    };
    sub.on_close(&mut scope, 5);
    assert_eq!(scope.store.get("warm"), Some(&FieldValue::Bool(true)));
    assert_eq!(
        scope.store.get("elapsed_milliseconds"),
        Some(&FieldValue::U64(0))
    );
}

#[test]
fn parent_and_child_full_scenario() {
    // Scope A carries x=1; child scope B records y=2 and closes with no
    // entry event: B holds x=1, y=2 and a zero elapsed time, while A
    // still holds only x=1.
    let sub = StorageSubscription::new(Vec::new());
    let a = sub.on_new_span(None, &vec![("x".to_string(), FieldInput::I64(1))]);
    let mut b = sub.on_new_span(Some(&a.store), &no_fields());
    sub.on_record(&mut b, &vec![("y".to_string(), FieldInput::I64(2))]);
    sub.on_close(&mut b, 10);
    assert_eq!(b.store.get("x"), Some(&FieldValue::I64(1)));
    assert_eq!(b.store.get("y"), Some(&FieldValue::I64(2)));
    assert_eq!(
        b.store.get("elapsed_milliseconds"),
        Some(&FieldValue::U64(0))
    );
    assert_eq!(b.store.len(), 3);
    assert_eq!(a.store.get("x"), Some(&FieldValue::I64(1)));
    assert_eq!(a.store.len(), 1);
}
