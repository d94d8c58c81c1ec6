use rustledge::bucket::{Bucket, Value};

fn text(value: &str) -> Value {
    Value::String(value.to_string())
}

#[test]
fn lib_new_creates_empty_bucket() {
    let _ = Bucket::new();
}

#[test]
fn lib_it_can_hold_strings() {
    let mut bucket = Bucket::new();
    bucket.set("test", Value::String("value".to_string()));
    assert_eq!(
        *bucket.get("test").unwrap(),
        Value::String("value".to_string())
    );
}

#[test]
fn lib_it_can_hold_bools() {
    let mut bucket = Bucket::new();
    bucket.set("f", Value::Bool(false));
    bucket.set("t", Value::Bool(true));
    assert_eq!(*bucket.get("f").unwrap(), Value::Bool(false));
    assert_eq!(*bucket.get("t").unwrap(), Value::Bool(true));
}

#[test]
fn lib_it_can_hold_list_of_strings() {
    let mut bucket = Bucket::new();
    bucket.set("test", Value::List(vec!["a".to_string(), "b".to_string()]));
    assert_eq!(
        *bucket.get("test").unwrap(),
        Value::List(vec!["a".to_string(), "b".to_string(),]),
    );
}

#[test]
fn lib_it_can_hold_another_bucket() {
    let mut bucket = Bucket::new();
    let mut value_bucket = Bucket::new();
    value_bucket.set("val1", Value::String("tesst".to_string()));
    let copy_value_bucket = value_bucket.clone();

    bucket.set("test", Value::Bucket(value_bucket));
    assert_eq!(
        *bucket.get("test").unwrap(),
        Value::Bucket(copy_value_bucket)
    );
}

#[test]
fn new_bucket_has_no_entries() {
    let bucket = Bucket::new();
    assert_eq!(bucket.len(), 0);
    assert!(bucket.get("anything").is_none());
    assert!(bucket.get("").is_none());
}

#[test]
fn get_of_unknown_key_is_none() {
    let mut bucket = Bucket::new();
    bucket.set("known", text("value"));
    assert!(bucket.get("unknown").is_none());
    assert!(bucket.get("know").is_none());
    assert!(bucket.get("known ").is_none());
}

#[test]
fn last_write_for_a_key_wins() {
    let mut bucket = Bucket::new();
    bucket.set("key", text("first"));
    bucket.set("other", Value::Bool(true));
    bucket.set("key", text("second"));
    assert_eq!(*bucket.get("key").unwrap(), text("second"));
    assert_eq!(*bucket.get("other").unwrap(), Value::Bool(true));
    assert_eq!(bucket.len(), 2);
}

#[test]
fn set_may_change_the_kind_of_value() {
    let mut bucket = Bucket::new();
    bucket.set("key", text("first"));
    bucket.set("key", Value::List(vec!["x".to_string()]));
    assert_eq!(*bucket.get("key").unwrap(), Value::List(vec!["x".to_string()]));
    assert_ne!(*bucket.get("key").unwrap(), text("first"));
}

#[test]
fn entries_stand_in_the_order_of_first_setting() {
    let mut bucket = Bucket::new();
    bucket.set("b", text("1"));
    bucket.set("a", text("2"));
    bucket.set("b", text("3"));
    assert_eq!(bucket.len(), 2);
    assert_eq!(bucket.key_at(0), "b");
    assert_eq!(*bucket.value_at(0), text("3"));
    assert_eq!(bucket.key_at(1), "a");
    assert_eq!(*bucket.value_at(1), text("2"));
}

#[test]
fn a_clone_equals_what_it_was_made_of() {
    let mut inner = Bucket::new();
    inner.set("deep", Value::List(vec!["x".to_string(), "y".to_string()]));
    let mut middle = Bucket::new();
    middle.set("inner", Value::Bucket(inner));
    middle.set("flag", Value::Bool(false));
    let mut bucket = Bucket::new();
    bucket.set("middle", Value::Bucket(middle));
    bucket.set("text", text("t"));
    let copy = bucket.clone();
    assert_eq!(copy, bucket);
    assert_eq!(copy.len(), 2);
    let empty = Bucket::new();
    assert_eq!(empty.clone(), empty);
}

#[test]
fn clone_is_a_copy_of_its_own() {
    let mut bucket = Bucket::new();
    bucket.set("key", text("before"));
    let copy = bucket.clone();
    bucket.set("key", text("after"));
    assert_eq!(*copy.get("key").unwrap(), text("before"));
    assert_ne!(copy, bucket);
}

#[test]
fn equality_does_not_look_at_the_order() {
    let mut first = Bucket::new();
    first.set("a", text("1"));
    first.set("b", Value::Bool(true));
    let mut second = Bucket::new();
    second.set("b", Value::Bool(true));
    second.set("a", text("1"));
    assert_eq!(first, second);
}

#[test]
fn buckets_that_differ_are_not_equal() {
    let mut first = Bucket::new();
    first.set("a", text("1"));
    let mut other_value = Bucket::new();
    other_value.set("a", text("2"));
    let mut other_key = Bucket::new();
    other_key.set("b", text("1"));
    let mut more = Bucket::new();
    more.set("a", text("1"));
    more.set("b", text("1"));
    assert_ne!(first, other_value);
    assert_ne!(first, other_key);
    assert_ne!(first, more);
    assert_ne!(more, first);
    assert_ne!(first, Bucket::new());
}

#[test]
fn nested_buckets_are_compared_deeply() {
    let mut inner_one = Bucket::new();
    inner_one.set("x", text("1"));
    inner_one.set("y", text("2"));
    let mut inner_two = Bucket::new();
    inner_two.set("y", text("2"));
    inner_two.set("x", text("1"));
    let mut inner_three = Bucket::new();
    inner_three.set("y", text("2"));
    inner_three.set("x", text("other"));
    assert_eq!(Value::Bucket(inner_one.clone()), Value::Bucket(inner_two));
    assert_ne!(Value::Bucket(inner_one), Value::Bucket(inner_three));
}

#[test]
fn values_of_different_kinds_are_not_equal() {
    assert_ne!(text("true"), Value::Bool(true));
    assert_ne!(text("a"), Value::List(vec!["a".to_string()]));
    assert_ne!(Value::Bucket(Bucket::new()), Value::List(vec![]));
    assert_ne!(
        Value::List(vec!["a".to_string(), "b".to_string()]),
        Value::List(vec!["b".to_string(), "a".to_string()])
    );
    assert_ne!(Value::List(vec!["a".to_string()]), Value::List(vec![]));
    assert_eq!(Value::List(vec![]), Value::List(vec![]));
}

#[test]
fn a_value_clone_equals_what_it_was_made_of() {
    let list = Value::List(vec!["a".to_string(), "b".to_string()]);
    assert_eq!(list.clone(), list);
    assert_eq!(text("t").clone(), text("t"));
    assert_eq!(Value::Bool(true).clone(), Value::Bool(true));
}

#[test]
fn get_mut_changes_the_value_in_place() {
    let mut bucket = Bucket::new();
    bucket.set("first", text("1"));
    bucket.set("key", text("before"));
    if let Some(value) = bucket.get_mut("key") {
        *value = Value::Bool(true);
    }
    assert_eq!(*bucket.get("key").unwrap(), Value::Bool(true));
    assert_eq!(*bucket.get("first").unwrap(), text("1"));
    assert_eq!(bucket.len(), 2);
    assert!(bucket.get_mut("unknown").is_none());
}

#[test]
fn get_mut_reaches_into_a_nested_bucket() {
    let mut bucket = Bucket::new();
    bucket.set("inner", Value::Bucket(Bucket::new()));
    if let Some(Value::Bucket(inner)) = bucket.get_mut("inner") {
        inner.set("added", text("later"));
    }
    let inner = bucket.get_bucket("inner").unwrap();
    assert_eq!(*inner.get("added").unwrap(), text("later"));
}

#[test]
fn typed_getters_narrow_to_the_kind() {
    let mut inner = Bucket::new();
    inner.set("x", text("1"));
    let mut bucket = Bucket::new();
    bucket.set("text", text("value"));
    bucket.set("inner", Value::Bucket(inner.clone()));
    bucket.set("flag", Value::Bool(true));
    assert_eq!(bucket.get_string("text").unwrap(), "value");
    assert_eq!(*bucket.get_bucket("inner").unwrap(), inner);
    assert!(bucket.get_string("inner").is_none());
    assert!(bucket.get_string("flag").is_none());
    assert!(bucket.get_bucket("text").is_none());
    assert!(bucket.get_bucket("flag").is_none());
}

#[test]
fn keys_are_compared_character_by_character() {
    let mut bucket = Bucket::new();
    bucket.set("متن", text("persian"));
    bucket.set("ключ", text("russian"));
    bucket.set("", text("empty"));
    assert_eq!(*bucket.get("متن").unwrap(), text("persian"));
    assert_eq!(*bucket.get("ключ").unwrap(), text("russian"));
    assert_eq!(*bucket.get("").unwrap(), text("empty"));
    assert!(bucket.get("клю").is_none());
    assert_eq!(bucket.len(), 3);
}
