use wasi_provider::config::{
    decide_config, runtime_config, RuntimeConfig, ALLOWED_DOMAINS_ANNOTATION_KEY,
    MAX_CONNCURRENT_REQUESTS_ANNOTATION_KEY,
};
use wasi_provider::error::StartError;
use wasi_provider::keyed::KeyedMap;

fn annotations(entries: Vec<(&str, &str)>) -> KeyedMap<String, String> {
    let mut map = KeyedMap::new();
    for (key, value) in entries {
        map.insert(key.to_string(), value.to_string());
    }
    map
}

fn limit_error(text: &str) -> StartError {
    StartError::AnnotationParseError {
        key: "alpha.wasi.krustlet.dev/max-concurrent-requests".to_string(),
        cause: text.parse::<u32>().unwrap_err().to_string(),
    }
}

fn domains_error(text: &str) -> StartError {
    StartError::AnnotationParseError {
        key: "alpha.wasi.krustlet.dev/allowed-domains".to_string(),
        cause: serde_json::from_str::<Vec<String>>(text).unwrap_err().to_string(),
    }
}

#[test]
fn the_keys_are_the_documented_ones() {
    assert_eq!(ALLOWED_DOMAINS_ANNOTATION_KEY, "alpha.wasi.krustlet.dev/allowed-domains");
    assert_eq!(
        MAX_CONNCURRENT_REQUESTS_ANNOTATION_KEY,
        "alpha.wasi.krustlet.dev/max-concurrent-requests"
    );
}

#[test]
fn the_default_leaves_both_fields_unset() {
    assert_eq!(
        RuntimeConfig::default(),
        RuntimeConfig { allowed_domains: None, max_concurrent_requests: None }
    );
}

#[test]
fn neither_annotation() {
    let config = runtime_config(&annotations(vec![("unrelated", "x")]));
    assert_eq!(config, Ok(RuntimeConfig { allowed_domains: None, max_concurrent_requests: None }));
}

#[test]
fn only_allowed_domains() {
    let config = runtime_config(&annotations(vec![(
        ALLOWED_DOMAINS_ANNOTATION_KEY,
        "[\"https://a.example\", \"https://b.example\"]",
    )]));
    assert_eq!(
        config,
        Ok(RuntimeConfig {
            allowed_domains: Some(vec![
                "https://a.example".to_string(),
                "https://b.example".to_string()
            ]),
            max_concurrent_requests: None,
        })
    );
}

#[test]
fn only_max_concurrent_requests() {
    let config = runtime_config(&annotations(vec![(MAX_CONNCURRENT_REQUESTS_ANNOTATION_KEY, "42")]));
    assert_eq!(
        config,
        Ok(RuntimeConfig { allowed_domains: None, max_concurrent_requests: Some(42) })
    );
}

#[test]
fn both_annotations() {
    let config = runtime_config(&annotations(vec![
        (MAX_CONNCURRENT_REQUESTS_ANNOTATION_KEY, "3"),
        (ALLOWED_DOMAINS_ANNOTATION_KEY, "[]"),
    ]));
    assert_eq!(
        config,
        Ok(RuntimeConfig { allowed_domains: Some(vec![]), max_concurrent_requests: Some(3) })
    );
}

#[test]
fn allowed_domains_that_are_no_json() {
    for text in ["example.com", "", "[\"a\"", "[\"a\"] x", "{\"a\": 1}", "[1, 2]", "\"a\""] {
        let config = runtime_config(&annotations(vec![(ALLOWED_DOMAINS_ANNOTATION_KEY, text)]));
        assert_eq!(config, Err(domains_error(text)));
    }
}

#[test]
fn a_limit_that_is_no_number() {
    for text in ["many", "", "-1", "+", "1.5", " 5", "5 ", "1_000", "0x10", "4294967296"] {
        let config =
            runtime_config(&annotations(vec![(MAX_CONNCURRENT_REQUESTS_ANNOTATION_KEY, text)]));
        assert_eq!(config, Err(limit_error(text)));
    }
}

#[test]
fn limits_that_are_numbers() {
    for (text, value) in
        [("0", 0), ("7", 7), ("+7", 7), ("007", 7), ("4294967295", u32::MAX), ("0000000004294967295", u32::MAX)]
    {
        let config =
            runtime_config(&annotations(vec![(MAX_CONNCURRENT_REQUESTS_ANNOTATION_KEY, text)]));
        assert_eq!(
            config,
            Ok(RuntimeConfig { allowed_domains: None, max_concurrent_requests: Some(value) })
        );
    }
}

#[test]
fn a_malformed_limit_does_not_depend_on_the_domains() {
    let config = runtime_config(&annotations(vec![
        (ALLOWED_DOMAINS_ANNOTATION_KEY, "[\"a\"]"),
        (MAX_CONNCURRENT_REQUESTS_ANNOTATION_KEY, "x"),
    ]));
    assert_eq!(config, Err(limit_error("x")));
}

#[test]
fn malformed_domains_do_not_depend_on_the_limit() {
    let config = runtime_config(&annotations(vec![
        (ALLOWED_DOMAINS_ANNOTATION_KEY, "nope"),
        (MAX_CONNCURRENT_REQUESTS_ANNOTATION_KEY, "5"),
    ]));
    assert_eq!(config, Err(domains_error("nope")));
}

#[test]
fn malformed_domains_are_reported_first() {
    let config = runtime_config(&annotations(vec![
        (MAX_CONNCURRENT_REQUESTS_ANNOTATION_KEY, "x"),
        (ALLOWED_DOMAINS_ANNOTATION_KEY, "nope"),
    ]));
    assert_eq!(config, Err(domains_error("nope")));
}

#[test]
fn decide_config_on_every_combination() {
    let domains = || vec!["a".to_string()];
    assert_eq!(
        decide_config(None, None),
        Ok(RuntimeConfig { allowed_domains: None, max_concurrent_requests: None })
    );
    assert_eq!(
        decide_config(Some(Ok(domains())), None),
        Ok(RuntimeConfig { allowed_domains: Some(domains()), max_concurrent_requests: None })
    );
    assert_eq!(
        decide_config(None, Some(Ok(9))),
        Ok(RuntimeConfig { allowed_domains: None, max_concurrent_requests: Some(9) })
    );
    assert_eq!(
        decide_config(Some(Ok(domains())), Some(Ok(9))),
        Ok(RuntimeConfig { allowed_domains: Some(domains()), max_concurrent_requests: Some(9) })
    );
    assert_eq!(
        decide_config(Some(Err("bad list".to_string())), Some(Ok(9))),
        Err(StartError::AnnotationParseError {
            key: "alpha.wasi.krustlet.dev/allowed-domains".to_string(),
            cause: "bad list".to_string(),
        })
    );
    assert_eq!(
        decide_config(Some(Ok(domains())), Some(Err("bad number".to_string()))),
        Err(StartError::AnnotationParseError {
            key: "alpha.wasi.krustlet.dev/max-concurrent-requests".to_string(),
            cause: "bad number".to_string(),
        })
    );
    assert_eq!(
        decide_config(Some(Err("bad list".to_string())), Some(Err("bad number".to_string()))),
        Err(StartError::AnnotationParseError {
            key: "alpha.wasi.krustlet.dev/allowed-domains".to_string(),
            cause: "bad list".to_string(),
        })
    );
}
