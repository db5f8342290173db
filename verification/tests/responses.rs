use stt_core::asr::{format_response, AsrClient, AsrError, AttemptOutcome};
use stt_core::config::Config;
use stt_core::jsonpath::{extract_text_from_response, parse_text_path, TextExtractionError};

fn field<'a>(fields: &'a [(String, String)], key: &str) -> Option<&'a str> {
    fields
        .iter()
        .find(|(k, _)| k == key)
        .map(|(_, v)| v.as_str())
}

#[test]
fn extra_config_shallowly_overrides_and_null_deletes() {
    let cfg = Config {
        model: "base".into(),
        language: "zh".into(),
        prompt: "hello".into(),
        extra_config:
            r#"{"language":null,"temperature":0.25,"stream":false,"metadata":{"tier":"test"}}"#
                .into(),
        ..Config::default()
    };
    let fields = AsrClient::new(cfg).unwrap().request_fields();
    assert!(field(&fields, "language").is_none());
    assert_eq!(field(&fields, "model"), Some("base"));
    assert_eq!(field(&fields, "temperature"), Some("0.25"));
    assert_eq!(field(&fields, "stream"), Some("false"));
    assert_eq!(field(&fields, "metadata"), Some(r#"{"tier":"test"}"#));
    let keys: Vec<&str> = fields.iter().map(|(k, _)| k.as_str()).collect();
    assert_eq!(keys, ["metadata", "model", "prompt", "stream", "temperature"]);
}

#[test]
fn rejects_non_object_extra_config() {
    let config = Config {
        extra_config: "[]".into(),
        ..Config::default()
    };
    assert!(AsrClient::new(config).is_err());
}

#[test]
fn empty_fields_are_omitted() {
    let fields = AsrClient::new(Config::default()).unwrap().request_fields();
    assert!(fields.is_empty());
    let cfg = Config {
        model: "m".into(),
        extra_config: r#"{"model":"x","b":true,"a":[1,2]}"#.into(),
        ..Config::default()
    };
    let fields = AsrClient::new(cfg).unwrap().request_fields();
    assert_eq!(
        fields,
        vec![
            ("a".to_string(), "[1,2]".to_string()),
            ("b".to_string(), "true".to_string()),
            ("model".to_string(), "x".to_string()),
        ]
    );
}

#[test]
fn formats_text_and_binary_responses() {
    assert_eq!(format_response(&[]), "<empty>");
    assert_eq!(format_response(b"hello"), "hello");
    assert_eq!(format_response(&[0xff, 0]), "<binary 2 bytes, hex: ff00>");
    let unicode = format!("{}é", "a".repeat(999));
    assert!(format_response(unicode.as_bytes()).starts_with(&"a".repeat(999)));
}

#[test]
fn long_responses_are_truncated_at_a_character_boundary() {
    let unicode = format!("{}é", "a".repeat(999));
    assert_eq!(
        format_response(unicode.as_bytes()),
        format!("{}... (truncated, total 1001 bytes)", "a".repeat(999))
    );
    let binary = vec![0xffu8; 300];
    let summary = format_response(&binary);
    assert!(summary.starts_with("<binary 300 bytes, prefix hex: ffff"));
    assert!(summary.ends_with("...>"));
    assert_eq!(summary.len(), "<binary 300 bytes, prefix hex: ...>".len() + 512);
}

fn extract(body: &str, path: &str) -> Result<String, TextExtractionError> {
    extract_text_from_response(body.as_bytes(), &parse_text_path(path).unwrap())
}

#[test]
fn standard_selectors_and_scalar_conversion() {
    let body = r#"{
        "text": "hello", "result": {"transcript": "nested"},
        "results": [{"alternatives": [{"transcript": true}]}],
        "data": {"items": [[0, {"text": 7.5}]]},
        "segments": [{"id": 1, "text": "first"}, {"id": 42, "text": "last"}],
        "result.text": "dotted", "recognition result": {"text-value": "special"}
    }"#;
    for (path, expected) in [
        ("$.text", "hello"),
        ("$.result.transcript", "nested"),
        ("$.results[0].alternatives[0].transcript", "true"),
        ("$.data.items[0][1].text", "7.5"),
        ("$.segments[0].text", "first"),
        ("$.segments[-1].text", "last"),
        ("$.segments[?@.id == 42].text", "last"),
        ("$['result.text']", "dotted"),
        ("$['recognition result']['text-value']", "special"),
    ] {
        assert_eq!(extract(body, path).unwrap(), expected, "{path}");
    }
    assert_eq!(extract(r#""root""#, "$").unwrap(), "root");
    assert_eq!(extract(r#"["root"]"#, "$[0]").unwrap(), "root");
}

#[test]
fn requires_exactly_one_match_without_fallback() {
    let body =
        r#"{"text":"fallback","other":"also fallback","segments":[{"text":"a"},{"text":"b"}]}"#;
    assert!(matches!(
        extract(body, "$.missing"),
        Err(TextExtractionError::NoMatch)
    ));
    for path in ["$.segments[*].text", "$.segments[0:2].text"] {
        assert!(matches!(
            extract(body, path),
            Err(TextExtractionError::MultipleMatches { count: 2 })
        ));
    }
    assert!(matches!(
        extract(body, "$..text"),
        Err(TextExtractionError::MultipleMatches { count: 3 })
    ));
    // [0] indexes each selected JSON value, not the query's result list.
    assert!(matches!(
        extract(body, "$.segments[*].text[0]"),
        Err(TextExtractionError::NoMatch)
    ));
    for path in ["$.segments[*].text", "$.segments[0:2].text", "$..text"] {
        assert_eq!(
            extract(r#"{"segments":[{"text":"only"}]}"#, path).unwrap(),
            "only"
        );
    }
}

#[test]
fn rejects_non_scalar_values_but_accepts_empty_strings() {
    for (body, kind) in [
        (r#"{"text":null}"#, "null"),
        (r#"{"text":[]}"#, "an array"),
        (r#"{"text":{}}"#, "an object"),
    ] {
        assert!(
            matches!(extract(body, "$.text"), Err(TextExtractionError::InvalidType { kind: actual }) if actual == kind)
        );
    }
    assert_eq!(extract(r#"{"text":""}"#, "$.text").unwrap(), "");
    assert!(matches!(
        extract("not JSON", "$.text"),
        Err(TextExtractionError::InvalidJson(_))
    ));
}

#[test]
fn rejects_empty_legacy_and_malformed_paths() {
    for path in ["", "text", "result.transcript", "$.items[", "$.items[bad]"] {
        assert!(
            parse_text_path(path)
                .unwrap_err()
                .message()
                .starts_with("invalid TEXT_PATH:"),
            "{path}"
        );
    }
}

#[test]
fn extraction_error_messages() {
    assert_eq!(
        TextExtractionError::MultipleMatches { count: 3 }.message(),
        "TEXT_PATH matched 3 values; expected exactly one"
    );
    assert_eq!(
        TextExtractionError::NoMatch.message(),
        "TEXT_PATH matched no values; expected exactly one"
    );
}

#[test]
fn attempts_retry_until_the_limit() {
    let client = AsrClient::new(Config {
        api_endpoint: "http://localhost/asr".into(),
        max_retry: 2,
        ..Config::default()
    })
    .unwrap();
    assert!(client.check_request(false).is_ok());
    assert!(matches!(
        client.check_request(true),
        Err(AsrError::Canceled)
    ));
    assert!(matches!(
        client.settle_attempt(1, false, b"busy".to_vec()),
        AttemptOutcome::Retry
    ));
    match client.settle_attempt(2, false, b"busy".to_vec()) {
        AttemptOutcome::Failed(error) => {
            assert!(error.is_retry_exhausted());
            assert_eq!(error.last_response(), b"busy");
            assert_eq!(error.message(), "exceeded max retries (2), attempts: 2");
        }
        other => panic!("unexpected outcome {other:?}"),
    }
    match client.settle_attempt(1, true, br#"{"text":"hi"}"#.to_vec()) {
        AttemptOutcome::Finished(t) => {
            assert_eq!(t.text, "hi");
            assert_eq!(t.raw_response, br#"{"text":"hi"}"#);
        }
        other => panic!("unexpected outcome {other:?}"),
    }
    match client.settle_attempt(1, true, b"oops".to_vec()) {
        AttemptOutcome::Failed(AsrError::Extraction { raw_response, .. }) => {
            assert_eq!(raw_response, b"oops");
        }
        other => panic!("unexpected outcome {other:?}"),
    }
}

#[test]
fn empty_endpoint_is_refused() {
    let client = AsrClient::new(Config::default()).unwrap();
    let error = client.check_request(false).unwrap_err();
    assert!(matches!(error, AsrError::EmptyEndpoint));
    assert_eq!(error.message(), "API endpoint is empty");
}
