use exiftool_json::binary::{binary, binary_from_capture, parse_size, BinaryDataField};
use exiftool_json::error::Error;

#[test]
fn binary_placeholder_yields_the_size() {
    let field = binary("(Binary data 1024 bytes, use -b option to extract)")
        .unwrap()
        .unwrap();
    assert_eq!(field, BinaryDataField { size_bytes: 1024 });
}

#[test]
fn binary_placeholder_is_found_inside_longer_text() {
    let field = binary("ThumbnailImage: (Binary data 9542 bytes, use -b option to extract) end")
        .unwrap()
        .unwrap();
    assert_eq!(field.size_bytes, 9542);
}

#[test]
fn ordinary_text_is_not_a_binary_field() {
    assert_eq!(binary("Nexus 6P").unwrap(), None);
}

#[test]
fn near_miss_text_is_not_a_binary_field() {
    assert_eq!(binary("(Binary data bytes, use -b option to extract)").unwrap(), None);
}

#[test]
fn oversized_count_is_a_decode_error() {
    let result = binary("(Binary data 99999999999999999999999999 bytes, use -b option to extract)");
    assert!(matches!(result, Err(Error::DecodeError { .. })));
}

#[test]
fn parse_size_reads_decimal_digits() {
    assert_eq!(parse_size(&vec!['1', '0', '2', '4']), Some(1024));
    assert_eq!(parse_size(&vec!['0', '0', '7']), Some(7));
    assert_eq!(parse_size(&vec!['0']), Some(0));
}

#[test]
fn parse_size_rejects_what_is_not_a_plain_number() {
    assert_eq!(parse_size(&Vec::new()), None);
    assert_eq!(parse_size(&vec!['1', 'x']), None);
    assert_eq!(parse_size(&vec!['-', '1']), None);
}

#[test]
fn parse_size_rejects_overflow_and_takes_the_largest_value() {
    let largest = usize::MAX.to_string();
    let digits: Vec<char> = largest.chars().collect();
    assert_eq!(parse_size(&digits), Some(usize::MAX));
    let one_past = format!("{}0", largest);
    let digits_past: Vec<char> = one_past.chars().collect();
    assert_eq!(parse_size(&digits_past), None);
}

#[test]
fn capture_outcomes_map_to_results() {
    assert_eq!(binary_from_capture(None).unwrap(), None);
    let ok = binary_from_capture(Some(vec!['4', '2'])).unwrap().unwrap();
    assert_eq!(ok.size_bytes, 42);
    let bad = binary_from_capture(Some(vec!['4', 'b']));
    assert!(matches!(bad, Err(Error::DecodeError { .. })));
}

#[test]
fn extract_hands_back_the_placeholder_bytes() {
    let field = BinaryDataField { size_bytes: 3 };
    let bytes = field.extract("ThumbnailImage").unwrap();
    assert_eq!(bytes, vec![1, 2, 3]);
}
