use submillisecond::errors::{
    ErrorKind, FailedToDeserializePathParams, PathDeserializationError,
};
use submillisecond::response::{finalize, HttpVersion, Response};

fn rejection(kind: ErrorKind) -> FailedToDeserializePathParams {
    FailedToDeserializePathParams(PathDeserializationError::new(kind))
}

fn body_text(resp: &Response) -> String {
    String::from_utf8(resp.body.clone()).expect("body is text")
}

#[test]
fn wrong_number_renders_500_exact_text() {
    let resp = rejection(ErrorKind::WrongNumberOfParameters {
        got: 1,
        expected: 2,
    })
    .into_response();
    assert_eq!(resp.status, 500);
    assert_eq!(
        body_text(&resp),
        "Wrong number of path arguments for `Path`. Expected 2 but got 1"
    );
}

#[test]
fn wrong_number_expected_one_adds_guidance() {
    let resp = rejection(ErrorKind::WrongNumberOfParameters {
        got: 3,
        expected: 1,
    })
    .into_response();
    assert_eq!(resp.status, 500);
    assert_eq!(
        body_text(&resp),
        "Wrong number of path arguments for `Path`. Expected 1 but got 3. \
         Note that multiple parameters must be extracted with a tuple `Path<(_, _)>` \
         or a struct `Path<YourParams>`"
    );
}

#[test]
fn unsupported_type_renders_500_without_prefix() {
    let resp = rejection(ErrorKind::UnsupportedType {
        name: "HashMap<String, HashMap<String, String>>".to_string(),
    })
    .into_response();
    assert_eq!(resp.status, 500);
    assert_eq!(
        body_text(&resp),
        "Unsupported type `HashMap<String, HashMap<String, String>>`"
    );
}

#[test]
fn invalid_utf8_renders_400_with_prefix() {
    let resp = rejection(ErrorKind::InvalidUtf8InPathParam {
        key: "id".to_string(),
    })
    .into_response();
    assert_eq!(resp.status, 400);
    assert_eq!(body_text(&resp), "Invalid URL: Invalid UTF-8 in `id`");
}

#[test]
fn parse_error_renders_400() {
    let resp = rejection(ErrorKind::ParseError {
        value: "abc".to_string(),
        expected_type: "u64".to_string(),
    })
    .into_response();
    assert_eq!(resp.status, 400);
    assert_eq!(body_text(&resp), "Invalid URL: Cannot parse `abc` to a `u64`");
}

#[test]
fn parse_error_at_index_renders_400() {
    let resp = rejection(ErrorKind::ParseErrorAtIndex {
        index: 1,
        value: "x".to_string(),
        expected_type: "u64".to_string(),
    })
    .into_response();
    assert_eq!(resp.status, 400);
    assert_eq!(
        body_text(&resp),
        "Invalid URL: Cannot parse value at index 1 with value `x` to a `u64`"
    );
}

#[test]
fn parse_error_at_key_renders_400() {
    let resp = rejection(ErrorKind::ParseErrorAtKey {
        key: "user_id".to_string(),
        value: "x".to_string(),
        expected_type: "u64".to_string(),
    })
    .into_response();
    assert_eq!(resp.status, 400);
    assert_eq!(
        body_text(&resp),
        "Invalid URL: Cannot parse `user_id` with value `x` to a `u64`"
    );
}

#[test]
fn message_renders_400_verbatim_after_prefix() {
    let resp = rejection(ErrorKind::Message("missing field `team_id`".to_string()))
        .into_response();
    assert_eq!(resp.status, 400);
    assert_eq!(body_text(&resp), "Invalid URL: missing field `team_id`");
}

#[test]
fn message_method_is_verbatim() {
    let kind = ErrorKind::Message("anything at all".to_string());
    assert_eq!(kind.message(), "anything at all");
}

#[test]
fn error_builders_produce_the_right_kinds() {
    let err = PathDeserializationError::wrong_number_of_parameters()
        .got(4usize)
        .expected(2);
    match err.kind {
        ErrorKind::WrongNumberOfParameters { got, expected } => {
            assert_eq!(got, 4);
            assert_eq!(expected, 2);
        }
        other => panic!("unexpected kind: {:?}", other),
    }

    let err = PathDeserializationError::unsupported_type("Foo".to_string());
    assert_eq!(err.message(), "Unsupported type `Foo`");

    let err = PathDeserializationError::custom("boom".to_string());
    assert_eq!(err.message(), "boom");

    let rejection = FailedToDeserializePathParams(PathDeserializationError::new(
        ErrorKind::InvalidUtf8InPathParam {
            key: "id".to_string(),
        },
    ));
    assert_eq!(rejection.message(), "Invalid UTF-8 in `id`");
    match rejection.into_kind() {
        ErrorKind::InvalidUtf8InPathParam { key } => assert_eq!(key, "id"),
        other => panic!("unexpected kind: {:?}", other),
    }
}

#[test]
fn finalize_appends_content_length_and_copies_version() {
    let mut resp = Response {
        status: 200,
        version: HttpVersion::Http11,
        headers: Vec::new(),
        body: b"hello".to_vec(),
    };
    finalize(&mut resp, HttpVersion::Http10);
    assert_eq!(resp.status, 200);
    assert_eq!(resp.version, HttpVersion::Http10);
    assert_eq!(resp.body, b"hello".to_vec());
    assert_eq!(
        resp.headers,
        vec![("Content-Length".to_string(), "5".to_string())]
    );
}

#[test]
fn finalize_appends_never_replaces() {
    let mut resp = Response {
        status: 200,
        version: HttpVersion::Http11,
        headers: vec![("Content-Length".to_string(), "999".to_string())],
        body: b"abc".to_vec(),
    };
    finalize(&mut resp, HttpVersion::Http11);
    assert_eq!(
        resp.headers,
        vec![
            ("Content-Length".to_string(), "999".to_string()),
            ("Content-Length".to_string(), "3".to_string())
        ]
    );
}
