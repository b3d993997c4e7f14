use std::collections::HashMap;

use bytes::Buf;

use influx_bridge::deserializer::{
    deserialize_bytes_to_str, deserialize_message, is_default_fields, json_to_hashmap,
    topic_parser, DecodeError,
};
use influx_bridge::influx_client::Field;

/// Reads a text as a JSON mapping of numbers, the way the bridge does
/// before it hands the mapping to the library.
fn parse_fields(text: &str) -> Option<Vec<Field>> {
    match serde_json::from_str::<HashMap<String, f64>>(text) {
        Ok(map) => Some(
            map.into_iter()
                .map(|(key, number)| Field { key, value: format!("{}", number) })
                .collect(),
        ),
        Err(_) => None,
    }
}

fn to_map(fields: Vec<Field>) -> HashMap<String, f64> {
    fields
        .into_iter()
        .map(|field| (field.key, field.value.parse::<f64>().unwrap()))
        .collect()
}

fn chunk(text: &[u8]) -> bytes::Bytes {
    bytes::Bytes::copy_from_slice(text)
}

fn decode_value(chunks: &Vec<bytes::Bytes>) -> f64 {
    let text = deserialize_bytes_to_str(chunks).unwrap();
    let fields = json_to_hashmap(parse_fields(&text)).unwrap();
    to_map(fields)["value"]
}

#[test]
fn topic_parses_adafruite_format() {
    let input_topic_str = "bucket/f/measurement.field_key".to_string();
    let res = topic_parser(&input_topic_str);
    assert_eq!(res.0, "measurement");
    assert_eq!(res.1, "field_key");
}

#[test]
fn topic_parser_handles_no_field_key() {
    let input_topic_str = "bucket/f/measurement".to_string();
    let res = topic_parser(&input_topic_str);
    assert_eq!(res.0, "measurement");
    assert_eq!(res.1, "default");
}

#[test]
fn topic_parser_handles_empty_topic_string() {
    let input_topic_str = "".to_string();
    let res = topic_parser(&input_topic_str);
    assert_eq!(res.0, "unknown_measurement");
    assert_eq!(res.1, "default");
}

#[test]
fn topic_parser_handles_only_bucket_and_f() {
    let input_topic_str = "bucket/f/".to_string();
    let res = topic_parser(&input_topic_str);
    assert_eq!(res.0, "unknown_measurement");
    assert_eq!(res.1, "default");
}

#[test]
fn deserialize_bytes_results_in_lower_case() {
    let expected_result = "{},234 Hello World".to_lowercase();
    let bytes = (&b"{},234 Hello World"[..]).copy_to_bytes(18);
    let mut v: Vec<bytes::Bytes> = Vec::new();
    v.push(bytes);
    let res = deserialize_bytes_to_str(&v).unwrap();
    assert_eq!(res, expected_result);
    assert_eq!(res, "{},234 hello world");
}

#[test]
fn json_to_hashmap_returns_defaults_on_failure_string_value() {
    let bad_field = "{\"value\": ''}".to_string();
    let mut expect = HashMap::new();
    expect.insert("value".to_string(), 0.0);
    let res = to_map(json_to_hashmap(parse_fields(&bad_field)).unwrap());
    assert_eq!(res, expect);
}

#[test]
fn topic_with_fewer_than_three_segments_is_all_defaults() {
    for topic in ["bucket", "bucket/f", "/", "a.b", "a.b/c.d", "measurement.field_key"] {
        let res = topic_parser(&topic.to_string());
        assert_eq!(res.0, "unknown_measurement", "{}", topic);
        assert_eq!(res.1, "default", "{}", topic);
    }
}

#[test]
fn topic_with_several_dots_keeps_both_defaults() {
    let res = topic_parser(&"bucket/f/a.b.c".to_string());
    assert_eq!(res.0, "unknown_measurement");
    assert_eq!(res.1, "default");
    let res = topic_parser(&"bucket/f/..".to_string());
    assert_eq!(res.0, "unknown_measurement");
    assert_eq!(res.1, "default");
}

#[test]
fn topic_with_two_pieces_takes_them_as_they_stand() {
    let res = topic_parser(&"bucket/f/.key".to_string());
    assert_eq!(res.0, "");
    assert_eq!(res.1, "key");
    let res = topic_parser(&"bucket/f/temp.".to_string());
    assert_eq!(res.0, "temp");
    assert_eq!(res.1, "");
    let res = topic_parser(&"bucket/f/.".to_string());
    assert_eq!(res.0, "");
    assert_eq!(res.1, "");
}

#[test]
fn topic_reads_only_its_third_segment() {
    let res = topic_parser(&"bucket/f/temp.reading/more.dots.here".to_string());
    assert_eq!(res.0, "temp");
    assert_eq!(res.1, "reading");
    let res = topic_parser(&"a.b/c.d/temp".to_string());
    assert_eq!(res.0, "temp");
    assert_eq!(res.1, "default");
    let res = topic_parser(&"//\u{00e9}t\u{00e9}.\u{6e29}\u{5ea6}".to_string());
    assert_eq!(res.0, "\u{00e9}t\u{00e9}");
    assert_eq!(res.1, "\u{6e29}\u{5ea6}");
}

#[test]
fn topic_parser_gives_the_same_answer_twice() {
    let topic = "bucket/f/temp.reading".to_string();
    assert_eq!(topic_parser(&topic), topic_parser(&topic));
    assert_eq!(topic_parser(&topic), topic_parser(&topic.clone()));
}

#[test]
fn chunks_are_joined_in_order() {
    let v = vec![chunk(b"{\"VAL"), chunk(b"UE\": "), chunk(b""), chunk(b"5}")];
    assert_eq!(deserialize_bytes_to_str(&v).unwrap(), "{\"value\": 5}");
    assert_eq!(deserialize_bytes_to_str(&Vec::new()).unwrap(), "");
}

#[test]
fn the_whole_text_is_lower_cased_at_once() {
    // A capital sigma ends a word only where nothing follows it.
    let v = vec![chunk("\u{0391}\u{03a3}".as_bytes()), chunk("\u{0391}".as_bytes())];
    assert_eq!(deserialize_bytes_to_str(&v).unwrap(), "\u{03b1}\u{03c3}\u{03b1}");
    let v = vec![chunk("\u{0391}\u{03a3}".as_bytes())];
    assert_eq!(deserialize_bytes_to_str(&v).unwrap(), "\u{03b1}\u{03c2}");
}

#[test]
fn a_chunk_that_is_no_utf8_is_reported() {
    let v = vec![chunk(b"ok"), chunk(&[0xff, 0xfe]), chunk(&[0xc0])];
    assert_eq!(deserialize_bytes_to_str(&v), Err(DecodeError::InvalidUtf8 { chunk: 1 }));
    let v = vec![chunk(&[0x80])];
    assert_eq!(deserialize_bytes_to_str(&v), Err(DecodeError::InvalidUtf8 { chunk: 0 }));
}

#[test]
fn a_character_cut_in_two_spoils_both_chunks() {
    let whole = "\u{00e9}".as_bytes();
    let v = vec![chunk(b"a"), chunk(&whole[..1]), chunk(&whole[1..])];
    assert_eq!(deserialize_bytes_to_str(&v), Err(DecodeError::InvalidUtf8 { chunk: 1 }));
    assert_eq!(deserialize_bytes_to_str(&vec![chunk(whole)]).unwrap(), "\u{00e9}");
}

#[test]
fn value_is_read_whatever_the_letter_case() {
    assert_eq!(decode_value(&vec![chunk(b"{\"value\": 5}")]), 5.0);
    assert_eq!(decode_value(&vec![chunk(b"{\"VALUE\": 5}")]), 5.0);
    assert_eq!(decode_value(&vec![chunk(b"{\"Value\": 5}")]), 5.0);
    assert_eq!(decode_value(&vec![chunk(b"{\"VaLuE\": 72.5}")]), 72.5);
}

#[test]
fn what_is_no_json_mapping_of_numbers_reads_as_zero() {
    for text in ["not json", "", "5", "[1, 2]", "{\"value\": \"5\"}", "{\"value\": 5"] {
        let parsed = parse_fields(text);
        assert!(parsed.is_none(), "{}", text);
        let fields = json_to_hashmap(parsed).unwrap();
        assert!(is_default_fields(&fields));
        assert_eq!(to_map(fields)["value"], 0.0);
    }
}

#[test]
fn the_default_mapping_binds_value_to_zero() {
    let fields = json_to_hashmap(None).unwrap();
    assert_eq!(fields, vec![Field { key: "value".to_string(), value: "0".to_string() }]);
    assert_eq!(fields[0].value, format!("{}", 0.0));
}

#[test]
fn a_mapping_without_value_is_an_error() {
    let parsed = parse_fields("{\"other\": 5}");
    assert!(parsed.is_some());
    assert_eq!(json_to_hashmap(parsed), Err(DecodeError::MissingValue));
    assert_eq!(json_to_hashmap(parse_fields("{}")), Err(DecodeError::MissingValue));
    assert_eq!(json_to_hashmap(Some(Vec::new())), Err(DecodeError::MissingValue));
    assert_eq!(
        deserialize_message(&"bucket/f/temp.reading".to_string(), parse_fields("{\"other\": 5}")),
        Err(DecodeError::MissingValue)
    );
}

#[test]
fn a_parsed_mapping_is_kept_as_it_is() {
    let fields = vec![
        Field { key: "other".to_string(), value: "1".to_string() },
        Field { key: "value".to_string(), value: "2.5".to_string() },
    ];
    assert_eq!(json_to_hashmap(Some(fields.clone())), Ok(fields));
}

#[test]
fn only_a_lone_zero_value_passes_for_the_default() {
    let one = |key: &str, value: &str| vec![Field { key: key.to_string(), value: value.to_string() }];
    assert!(is_default_fields(&one("value", "0")));
    assert!(is_default_fields(&one("value", "-0")));
    assert!(is_default_fields(&parse_fields("{\"value\": 0.0}").unwrap()));
    assert!(is_default_fields(&parse_fields("{\"value\": -0.0}").unwrap()));
    assert!(!is_default_fields(&one("value", "1")));
    assert!(!is_default_fields(&one("other", "0")));
    assert!(!is_default_fields(&Vec::new()));
    let mut two = one("value", "0");
    two.push(Field { key: "other".to_string(), value: "0".to_string() });
    assert!(!is_default_fields(&two));
}

#[test]
fn a_message_becomes_a_point_with_one_field() {
    let topic = "bucket/f/temp.reading".to_string();
    let text = deserialize_bytes_to_str(&vec![chunk(b"{\"value\": 72.5}")]).unwrap();
    let point = deserialize_message(&topic, parse_fields(&text)).unwrap();
    assert_eq!(point.measurement, "temp");
    assert_eq!(point.field_map, vec![Field { key: "reading".to_string(), value: "72.5".to_string() }]);
}

#[test]
fn a_point_takes_only_the_value_of_the_payload() {
    let topic = "bucket/f/temp".to_string();
    let fields = vec![
        Field { key: "other".to_string(), value: "1".to_string() },
        Field { key: "value".to_string(), value: "2.5".to_string() },
        Field { key: "value".to_string(), value: "3".to_string() },
    ];
    let point = deserialize_message(&topic, Some(fields)).unwrap();
    assert_eq!(point.measurement, "temp");
    assert_eq!(point.field_map, vec![Field { key: "default".to_string(), value: "2.5".to_string() }]);
}

#[test]
fn an_unreadable_payload_becomes_a_point_of_zero() {
    let point = deserialize_message(&"nowhere".to_string(), parse_fields("garbage")).unwrap();
    assert_eq!(point.measurement, "unknown_measurement");
    assert_eq!(point.field_map, vec![Field { key: "default".to_string(), value: "0".to_string() }]);
}
