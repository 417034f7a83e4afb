use exiftool_json::error::Error;
use exiftool_json::reader::{json_tag, read_opt_tag, read_tag};
use exiftool_json::value::{tv_eq, TagValue};

fn sample_record() -> TagValue {
    let entries = vec![
        ("Make".to_string(), TagValue::Str("Huawei".to_string())),
        ("Model".to_string(), TagValue::Str("Nexus 6P".to_string())),
        ("ImageWidth".to_string(), TagValue::Num(2688)),
        ("Flash".to_string(), TagValue::Bool(false)),
    ];
    TagValue::Obj(entries)
}

#[test]
fn json_tag_returns_the_raw_value() {
    let record = sample_record();
    let raw = json_tag(&record, "Make").unwrap();
    assert!(tv_eq(&raw, &TagValue::Str("Huawei".to_string())));
}

#[test]
fn json_tag_fails_only_on_absent_tags() {
    let record = sample_record();
    let err = json_tag(&record, "UserComment").unwrap_err();
    match err {
        Error::TagNotFound { tag } => assert_eq!(tag, "UserComment"),
        _ => panic!("expected TagNotFound"),
    }
}

#[test]
fn read_tag_decodes_a_present_string() {
    let record = sample_record();
    let model: String = read_tag(&record, "Model").unwrap();
    assert_eq!(model, "Nexus 6P");
}

#[test]
fn read_tag_decodes_numbers_and_booleans() {
    let record = sample_record();
    let width: u32 = read_tag(&record, "ImageWidth").unwrap();
    assert_eq!(width, 2688);
    let width_i: i64 = read_tag(&record, "ImageWidth").unwrap();
    assert_eq!(width_i, 2688);
    let width_u: u64 = read_tag(&record, "ImageWidth").unwrap();
    assert_eq!(width_u, 2688);
    let flash: bool = read_tag(&record, "Flash").unwrap();
    assert!(!flash);
}

#[test]
fn read_tag_fails_with_tag_not_found_on_absent_tags() {
    let record = sample_record();
    let result: Result<String, Error> = read_tag(&record, "NonExistentTag");
    match result.unwrap_err() {
        Error::TagNotFound { tag } => assert_eq!(tag, "NonExistentTag"),
        _ => panic!("expected TagNotFound"),
    }
}

#[test]
fn read_tag_reports_a_decode_error_with_the_tag_name() {
    let record = sample_record();
    let result: Result<u32, Error> = read_tag(&record, "Make");
    match result.unwrap_err() {
        Error::DecodeError { tag, .. } => assert_eq!(tag, "Make"),
        _ => panic!("expected DecodeError"),
    }
}

#[test]
fn read_tag_rejects_numbers_out_of_range() {
    let entries = vec![("Big".to_string(), TagValue::Num(5_000_000_000))];
    let record = TagValue::Obj(entries);
    let result: Result<u32, Error> = read_tag(&record, "Big");
    assert!(matches!(result, Err(Error::DecodeError { .. })));
    let as_i64: i64 = read_tag(&record, "Big").unwrap();
    assert_eq!(as_i64, 5_000_000_000);
}

#[test]
fn read_tag_rejects_negative_numbers_for_unsigned_types() {
    let entries = vec![("Neg".to_string(), TagValue::Num(-4))];
    let record = TagValue::Obj(entries);
    let result: Result<u64, Error> = read_tag(&record, "Neg");
    assert!(matches!(result, Err(Error::DecodeError { .. })));
}

#[test]
fn read_opt_tag_is_none_on_absent_tags() {
    let record = sample_record();
    let comment: Option<String> = read_opt_tag(&record, "UserComment").unwrap();
    assert!(comment.is_none());
}

#[test]
fn read_opt_tag_is_some_on_present_tags() {
    let record = sample_record();
    let width: Option<u32> = read_opt_tag(&record, "ImageWidth").unwrap();
    assert_eq!(width, Some(2688));
}

#[test]
fn read_opt_tag_still_rejects_undecodable_values() {
    let record = sample_record();
    let result: Result<Option<u32>, Error> = read_opt_tag(&record, "Make");
    match result.unwrap_err() {
        Error::DecodeError { tag, .. } => assert_eq!(tag, "Make"),
        _ => panic!("expected DecodeError"),
    }
}

#[test]
fn read_tag_as_raw_value_round_trips() {
    let record = sample_record();
    let raw: TagValue = read_tag(&record, "ImageWidth").unwrap();
    assert!(tv_eq(&raw, &TagValue::Num(2688)));
}
