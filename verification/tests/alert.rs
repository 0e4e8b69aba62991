use health_monitor::alert::slack::{slack_request, webhook_request, AlertError};

#[test]
fn slack_body_is_a_json_object_with_the_text() {
    let request = slack_request("service api is down", "https://hooks.example/T/B").unwrap();
    assert_eq!(request.url, "https://hooks.example/T/B");
    assert_eq!(request.content_type, "application/json");
    assert_eq!(request.body, b"{\"text\":\"service api is down\"}".to_vec());
}

#[test]
fn slack_body_escapes_the_text() {
    let request = slack_request("a \"b\"\n\\", "u").unwrap();
    assert_eq!(request.body, b"{\"text\":\"a \\\"b\\\"\\n\\\\\"}".to_vec());
    let parsed: serde_json::Value = serde_json::from_slice(&request.body).unwrap();
    assert_eq!(parsed.get("text").and_then(|v| v.as_str()), Some("a \"b\"\n\\"));
    assert_eq!(parsed.as_object().map(|o| o.len()), Some(1));
}

#[test]
fn a_serialised_body_is_carried_as_it_is() {
    let request = webhook_request("https://x", Ok(vec![1, 2, 3])).unwrap();
    assert_eq!(request.url, "https://x");
    assert_eq!(request.content_type, "application/json");
    assert_eq!(request.body, vec![1, 2, 3]);
}

#[test]
fn a_failed_serialisation_gives_the_encoding_error() {
    let failure = serde_json::from_str::<serde_json::Value>("{").unwrap_err();
    match webhook_request("https://x", Err(failure)) {
        Err(e) => assert_eq!(e, AlertError::Encoding),
        Ok(r) => panic!("{:?}", r),
    }
}
