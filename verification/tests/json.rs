use herdr_targets::json::{json_file_text, jobject1, object_insert, object_remove, Json};

#[test]
fn file_text_is_pretty_json() {
    let v = jobject1("hooks", Json::Array(vec![Json::UInt(10), Json::Str("a".to_string())]));
    assert_eq!(json_file_text(&v), "{\n  \"hooks\": [\n    10,\n    \"a\"\n  ]\n}");
    assert_eq!(json_file_text(&Json::Object(vec![])), "{}");
}

#[test]
fn insert_and_remove_keep_member_names_distinct() {
    let mut ms = vec![("a".to_string(), Json::UInt(1)), ("b".to_string(), Json::UInt(2))];
    object_insert(&mut ms, "a", Json::UInt(3));
    object_insert(&mut ms, "c", Json::Null);
    assert_eq!(
        ms,
        vec![
            ("a".to_string(), Json::UInt(3)),
            ("b".to_string(), Json::UInt(2)),
            ("c".to_string(), Json::Null),
        ]
    );
    assert!(object_remove(&mut ms, "b"));
    assert!(!object_remove(&mut ms, "b"));
    assert_eq!(ms, vec![("a".to_string(), Json::UInt(3)), ("c".to_string(), Json::Null)]);
}
