use ami_client::clock::{format_timestamp, get_timestamp};
use ami_client::config::{load_api_key, save_api_key};
use ami_client::numeric::{parse_u64_str, u64_to_string, u64_to_padded_string};
use ami_client::{endpoint_url, resolve_output_type, OutputType};

#[test]
fn config_round_trip() {
    let doc = save_api_key("SECRET-REDACTED");
    assert_eq!(doc, "{\n  \"api_key\": \"SECRET-REDACTED\"\n}");
    assert_eq!(load_api_key(&doc), Ok("SECRET-REDACTED".to_string()));
}

#[test]
fn config_round_trip_with_escapes() {
    let key = "we\"ird\\key";
    let doc = save_api_key(key);
    assert_eq!(doc, "{\n  \"api_key\": \"we\\\"ird\\\\key\"\n}");
    assert_eq!(load_api_key(&doc), Ok(key.to_string()));
}

#[test]
fn config_accepts_whitespace_variations() {
    assert_eq!(load_api_key("{\"api_key\":\"k\"}"), Ok("k".to_string()));
    assert_eq!(load_api_key("{\n  \"api_key\": \"k\"\n} "), Ok("k".to_string()));
    assert_eq!(
        load_api_key("  {  \"api_key\"\t:\n\"k\"  }\r\n"),
        Ok("k".to_string())
    );
}

#[test]
fn config_escapes_control_characters() {
    let key = "a\nb\u{1}c";
    let doc = save_api_key(key);
    assert_eq!(doc, "{\n  \"api_key\": \"a\\nb\\u0001c\"\n}");
    assert_eq!(load_api_key(&doc), Ok(key.to_string()));
}

#[test]
fn config_skips_unknown_members() {
    assert_eq!(
        load_api_key("{\"api_key\":\"k\",\"other\":1}"),
        Ok("k".to_string())
    );
    assert_eq!(
        load_api_key("{\"note\":[true,null],\"api_key\":\"k\"}"),
        Ok("k".to_string())
    );
}

#[test]
fn config_rejects_other_shapes() {
    assert!(load_api_key("").is_err());
    assert!(load_api_key("{\"apikey\":\"k\"}").is_err());
    assert!(load_api_key("{\"api_key\":\"k\"").is_err());
    assert!(load_api_key("{\"api_key\":\"a\",\"api_key\":\"b\"}").is_err());
    assert_eq!(
        load_api_key("not json").unwrap_err(),
        "failed to deserialize config"
    );
}

#[test]
fn timestamp_formatting() {
    assert_eq!(format_timestamp(1620000000, 123456), "1620000000.123456");
    assert_eq!(format_timestamp(0, 0), "0.000000");
    assert_eq!(format_timestamp(7, 42), "7.000042");
}

#[test]
fn live_timestamp_shape() {
    let t = get_timestamp().unwrap();
    let (secs, micros) = t.split_once('.').unwrap();
    assert!(!secs.is_empty());
    assert!(secs.chars().all(|c| c.is_ascii_digit()));
    assert_eq!(micros.len(), 6);
    assert!(micros.chars().all(|c| c.is_ascii_digit()));
}

#[test]
fn decimal_writing() {
    assert_eq!(u64_to_string(0), "0");
    assert_eq!(u64_to_string(905), "905");
    assert_eq!(u64_to_string(u64::MAX), "18446744073709551615");
    assert_eq!(u64_to_padded_string(7, 6), "000007");
    assert_eq!(u64_to_padded_string(999999, 6), "999999");
}

#[test]
fn decimal_reading() {
    assert_eq!(parse_u64_str("0"), Some(0));
    assert_eq!(parse_u64_str("00123"), Some(123));
    assert_eq!(parse_u64_str("18446744073709551615"), Some(u64::MAX));
    assert_eq!(parse_u64_str("18446744073709551616"), None);
    assert_eq!(parse_u64_str(""), None);
    assert_eq!(parse_u64_str("-3"), None);
    assert_eq!(parse_u64_str("1 2"), None);
}

#[test]
fn output_type_resolution() {
    assert!(matches!(resolve_output_type(false, false), OutputType::Nil));
    assert!(matches!(resolve_output_type(true, false), OutputType::Verbose));
    assert!(matches!(resolve_output_type(false, true), OutputType::Trace));
    // tracing wins over verbose
    assert!(matches!(resolve_output_type(true, true), OutputType::Trace));
}

#[test]
fn endpoint_selection() {
    assert_eq!(endpoint_url(true), "wss://acp-api.amivoice.com/v1/");
    assert_eq!(endpoint_url(false), "wss://acp-api.amivoice.com/v1/nolog/");
}
