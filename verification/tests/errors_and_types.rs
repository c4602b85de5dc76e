use clientapi_pmg::apis::error::{status_display, status_line};
use clientapi_pmg::apis::{ContentType, Error, ResponseContent};

fn response(status: u16) -> Error<()> {
    Error::ResponseError(ResponseContent {
        status,
        content: "{}".to_string(),
        entity: None,
    })
}

#[test]
fn error_message_for_response_names_status() {
    assert_eq!(
        response(404).to_string(),
        "error in response: status code 404 Not Found"
    );
    assert_eq!(
        response(401).to_string(),
        "error in response: status code 401 Unauthorized"
    );
}

#[test]
fn error_message_for_unregistered_status() {
    assert_eq!(
        response(599).to_string(),
        "error in response: status code 599 <unknown status code>"
    );
}

#[test]
fn error_message_for_inner_errors() {
    let e: Error<()> = Error::Reqwest("connection refused".to_string());
    assert_eq!(e.to_string(), "error in reqwest: connection refused");
    let e: Error<()> = Error::Serde("expected value at line 1 column 1".to_string());
    assert_eq!(e.to_string(), "error in serde: expected value at line 1 column 1");
    let e: Error<()> = Error::Io("broken pipe".to_string());
    assert_eq!(e.to_string(), "error in IO: broken pipe");
}

#[test]
fn error_module_names() {
    assert_eq!(response(500).module_name(), "response");
    assert_eq!(Error::<()>::Io(String::new()).module_name(), "IO");
}

#[test]
fn status_display_uses_reason_phrase() {
    assert_eq!(status_display(200), "200 OK");
    assert_eq!(status_display(418), "418 I'm a teapot");
    assert_eq!(status_display(999), "999 <unknown status code>");
    assert_eq!(status_display(42), "42 <unknown status code>");
}

#[test]
fn status_line_formats_given_reason() {
    assert_eq!(status_line(7, Some("x")), "7 x");
    assert_eq!(status_line(1000, None), "1000 <unknown status code>");
}

#[test]
fn response_content_clone_keeps_fields() {
    let rc = ResponseContent {
        status: 400,
        content: "bad".to_string(),
        entity: Some(3u8),
    };
    let copy = rc.clone();
    assert_eq!(copy.status, 400);
    assert_eq!(copy.content, "bad");
    assert_eq!(copy.entity, Some(3));
}

#[test]
fn content_type_json() {
    assert!(matches!(ContentType::from("application/json"), ContentType::Json));
    assert!(matches!(
        ContentType::from("application/vnd.api+json; charset=utf-8"),
        ContentType::Json
    ));
}

#[test]
fn content_type_text() {
    assert!(matches!(
        ContentType::from("text/plain; charset=utf-8"),
        ContentType::Text
    ));
    assert!(matches!(ContentType::from("text/plain"), ContentType::Text));
}

#[test]
fn content_type_unsupported_keeps_value() {
    for value in ["text/html", "application/xml", "json/application", "", "application"] {
        match ContentType::from(value) {
            ContentType::Unsupported(v) => assert_eq!(v, value),
            other => panic!("{value}: {other:?}"),
        }
    }
}
