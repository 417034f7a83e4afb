use exiftool_json::combine::{combine, CombinedEntry, CombinedRecord};
use exiftool_json::error::Error;
use exiftool_json::value::{tv_eq, TagValue};

fn s(text: &str) -> TagValue {
    TagValue::Str(text.to_string())
}

fn obj(pairs: Vec<(&str, TagValue)>) -> TagValue {
    let mut entries: Vec<(String, TagValue)> = Vec::new();
    for (k, v) in pairs {
        entries.push((k.to_string(), v));
    }
    TagValue::Obj(entries)
}

fn group_of(record: &CombinedRecord, idx: usize) -> &Vec<(String, Vec<TagValue>)> {
    match &record.entries[idx].1 {
        CombinedEntry::Group(g) => g,
        CombinedEntry::Direct(_) => panic!("expected a group entry"),
    }
}

fn direct_of(record: &CombinedRecord, idx: usize) -> &Vec<TagValue> {
    match &record.entries[idx].1 {
        CombinedEntry::Direct(vals) => vals,
        CombinedEntry::Group(_) => panic!("expected a direct entry"),
    }
}

#[test]
fn empty_input_combines_to_empty() {
    let records: Vec<TagValue> = Vec::new();
    let combined = combine(&records).unwrap();
    assert_eq!(combined.entries.len(), 0);
}

#[test]
fn single_record_wraps_each_value() {
    let records = vec![obj(vec![("A", obj(vec![("B", s("x"))]))])];
    let combined = combine(&records).unwrap();
    assert_eq!(combined.entries.len(), 1);
    assert_eq!(combined.entries[0].0, "A");
    let g = group_of(&combined, 0);
    assert_eq!(g.len(), 1);
    assert_eq!(g[0].0, "B");
    assert_eq!(g[0].1.len(), 1);
    assert!(tv_eq(&g[0].1[0], &s("x")));
}

#[test]
fn single_record_scalar_under_top_key() {
    let records = vec![obj(vec![("A", s("y"))])];
    let combined = combine(&records).unwrap();
    assert_eq!(combined.entries.len(), 1);
    assert_eq!(combined.entries[0].0, "A");
    let vals = direct_of(&combined, 0);
    assert_eq!(vals.len(), 1);
    assert!(tv_eq(&vals[0], &s("y")));
}

#[test]
fn equal_values_are_deduplicated() {
    let records = vec![
        obj(vec![("A", obj(vec![("B", s("x"))]))]),
        obj(vec![("A", obj(vec![("B", s("x"))]))]),
    ];
    let combined = combine(&records).unwrap();
    assert_eq!(combined.entries.len(), 1);
    let g = group_of(&combined, 0);
    assert_eq!(g.len(), 1);
    assert_eq!(g[0].1.len(), 1);
    assert!(tv_eq(&g[0].1[0], &s("x")));
}

#[test]
fn distinct_values_accumulate_in_order() {
    let records = vec![
        obj(vec![("A", obj(vec![("B", s("x"))]))]),
        obj(vec![("A", obj(vec![("B", s("y"))]))]),
    ];
    let combined = combine(&records).unwrap();
    let g = group_of(&combined, 0);
    assert_eq!(g[0].1.len(), 2);
    assert!(tv_eq(&g[0].1[0], &s("x")));
    assert!(tv_eq(&g[0].1[1], &s("y")));
}

#[test]
fn scalar_against_group_is_a_type_mismatch() {
    let records = vec![
        obj(vec![("A", obj(vec![("B", s("x"))]))]),
        obj(vec![("A", s("y"))]),
    ];
    let err = combine(&records).unwrap_err();
    match err {
        Error::TypeMismatch { key } => assert_eq!(key, "A"),
        _ => panic!("expected TypeMismatch"),
    }
}

#[test]
fn group_against_scalar_is_a_type_mismatch() {
    let records = vec![
        obj(vec![("A", s("y"))]),
        obj(vec![("A", obj(vec![("B", s("x"))]))]),
    ];
    let err = combine(&records).unwrap_err();
    match err {
        Error::TypeMismatch { key } => assert_eq!(key, "A"),
        _ => panic!("expected TypeMismatch"),
    }
}

#[test]
fn non_object_record_is_invalid_input() {
    let records = vec![s("not a record")];
    let err = combine(&records).unwrap_err();
    assert!(matches!(err, Error::InvalidInput));
}

#[test]
fn direct_values_are_deduplicated_too() {
    let records = vec![
        obj(vec![("A", s("y"))]),
        obj(vec![("A", s("y"))]),
        obj(vec![("A", s("z"))]),
    ];
    let combined = combine(&records).unwrap();
    let vals = direct_of(&combined, 0);
    assert_eq!(vals.len(), 2);
    assert!(tv_eq(&vals[0], &s("y")));
    assert!(tv_eq(&vals[1], &s("z")));
}

#[test]
fn keys_keep_first_seen_order() {
    let records = vec![
        obj(vec![("Camera", obj(vec![("Make", s("Huawei"))]))]),
        obj(vec![
            ("Image", obj(vec![("Width", TagValue::Num(2688))])),
            ("Camera", obj(vec![("Model", s("Nexus 6P"))])),
        ]),
    ];
    let combined = combine(&records).unwrap();
    assert_eq!(combined.entries.len(), 2);
    assert_eq!(combined.entries[0].0, "Camera");
    assert_eq!(combined.entries[1].0, "Image");
    let camera = group_of(&combined, 0);
    assert_eq!(camera.len(), 2);
    assert_eq!(camera[0].0, "Make");
    assert_eq!(camera[1].0, "Model");
}

#[test]
fn mixed_value_kinds_stay_distinct() {
    let records = vec![
        obj(vec![("A", obj(vec![("B", TagValue::Num(1))]))]),
        obj(vec![("A", obj(vec![("B", s("1"))]))]),
        obj(vec![("A", obj(vec![("B", TagValue::Bool(true))]))]),
        obj(vec![("A", obj(vec![("B", TagValue::Null)]))]),
    ];
    let combined = combine(&records).unwrap();
    let g = group_of(&combined, 0);
    assert_eq!(g[0].1.len(), 4);
}
