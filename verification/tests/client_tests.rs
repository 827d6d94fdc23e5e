use pipy_rs::client::{
    check_codebase_listed, check_file_listed, interpret_descriptor, interpret_file,
    interpret_listing, interpret_program, interpret_unit, ApiClient, Method, RequestBody,
};
use pipy_rs::descriptor::decode_codebase;
use pipy_rs::errors::{ApiError, NotFoundKind};

fn client() -> ApiClient {
    ApiClient::new("127.0.0.1", 6060)
}

fn descriptor(version: &str) -> pipy_rs::descriptor::Codebase {
    let doc = format!(
        r#"{{
        "version": "{}",
        "path": "/hello",
        "main": "main.js",
        "files": ["main.js"],
        "edit_files": [],
        "erased_files": [],
        "base_files": [],
        "derived": []
    }}"#,
        version
    );
    decode_codebase(&doc.as_bytes().to_vec()).unwrap()
}

#[test]
fn listing_request_targets_the_repo_endpoint() {
    let r = client().list_request();
    assert_eq!(r.method, Method::Get);
    assert_eq!(r.url, "http://127.0.0.1:6060/api/v1/repo");
    assert!(matches!(r.body, RequestBody::Empty));
}

#[test]
fn create_and_descriptor_requests_target_the_codebase() {
    let r = client().create_request("hello");
    assert_eq!(r.method, Method::Post);
    assert_eq!(r.url, "http://127.0.0.1:6060/api/v1/repo/hello");
    let r = client().descriptor_request("hello");
    assert_eq!(r.method, Method::Get);
    assert_eq!(r.url, "http://127.0.0.1:6060/api/v1/repo/hello");
}

#[test]
fn file_requests_target_the_file_endpoint() {
    let r = client().file_request("hello", "main.js");
    assert_eq!(r.method, Method::Get);
    assert_eq!(r.url, "http://127.0.0.1:6060/api/v1/repo-files/hello/main.js");

    let data = b"pipy()".to_vec();
    let r = client().write_request("hello", "main.js", data.clone());
    assert_eq!(r.method, Method::Post);
    assert_eq!(r.url, "http://127.0.0.1:6060/api/v1/repo-files/hello/main.js");
    match r.body {
        RequestBody::Bytes(b) => assert_eq!(b, data),
        other => panic!("wrong body: {:?}", other),
    }
}

#[test]
fn publish_submits_current_version_plus_one() {
    let r = client().publish_request("hello", &descriptor("1")).unwrap();
    assert_eq!(r.method, Method::Patch);
    assert_eq!(r.url, "http://127.0.0.1:6060/api/v1/repo/hello");
    match r.body {
        RequestBody::Text(t) => assert_eq!(t, r#"{"version": "2"}"#),
        other => panic!("wrong body: {:?}", other),
    }
}

#[test]
fn first_publish_advances_version_zero_to_one() {
    let r = client().publish_request("hello", &descriptor("0")).unwrap();
    match r.body {
        RequestBody::Text(t) => assert_eq!(t, r#"{"version": "1"}"#),
        other => panic!("wrong body: {:?}", other),
    }
}

#[test]
fn descriptor_responses_decode_on_success_only() {
    let doc = br#"{
        "version": "1",
        "path": "/hello",
        "main": "main.js",
        "files": ["main.js"],
        "edit_files": [],
        "erased_files": [],
        "base_files": [],
        "derived": []
    }"#
        .to_vec();
    let cb = interpret_descriptor(200, &doc).unwrap();
    assert_eq!(cb.version, "1");
    assert!(matches!(
        interpret_descriptor(404, &doc).unwrap_err(),
        ApiError::RemoteStatusFailure { status: 404, .. }
    ));
    assert!(matches!(
        interpret_descriptor(200, &b"{}".to_vec()).unwrap_err(),
        ApiError::DecodeFailure
    ));
}

#[test]
fn publish_requires_an_integer_version() {
    let err = client()
        .publish_request("hello", &descriptor("0.1"))
        .unwrap_err();
    assert!(matches!(err, ApiError::DecodeFailure));
    let err = client()
        .publish_request("hello", &descriptor(""))
        .unwrap_err();
    assert!(matches!(err, ApiError::DecodeFailure));
    let err = client()
        .publish_request("hello", &descriptor("18446744073709551615"))
        .unwrap_err();
    assert!(matches!(err, ApiError::DecodeFailure));
}

#[test]
fn activation_requests_use_the_program_endpoint() {
    let r = client().activate_request("hello");
    assert_eq!(r.method, Method::Post);
    assert_eq!(r.url, "http://127.0.0.1:6060/api/v1/program");
    match r.body {
        RequestBody::Text(t) => assert_eq!(t, "/hello"),
        other => panic!("wrong body: {:?}", other),
    }
    let r = client().program_request();
    assert_eq!(r.method, Method::Get);
    assert_eq!(r.url, "http://127.0.0.1:6060/api/v1/program");
    let r = client().deactivate_request();
    assert_eq!(r.method, Method::Delete);
    assert_eq!(r.url, "http://127.0.0.1:6060/api/v1/program");
}

#[test]
fn unit_responses_succeed_exactly_on_2xx() {
    assert!(interpret_unit(200, Vec::new()).is_ok());
    assert!(interpret_unit(204, Vec::new()).is_ok());
    assert!(interpret_unit(299, Vec::new()).is_ok());
    let err = interpret_unit(404, b"gone".to_vec()).unwrap_err();
    assert_eq!(
        err,
        ApiError::RemoteStatusFailure { status: 404, body: b"gone".to_vec() }
    );
    assert!(interpret_unit(199, Vec::new()).is_err());
    assert!(interpret_unit(300, Vec::new()).is_err());
}

#[test]
fn listing_responses_decode_on_success_only() {
    let names = interpret_listing(200, "/hello\n/world").unwrap();
    assert_eq!(names, vec!["hello".to_string(), "world".to_string()]);
    assert_eq!(interpret_listing(200, "").unwrap(), Vec::<String>::new());
    let err = interpret_listing(500, "oops").unwrap_err();
    assert_eq!(
        err,
        ApiError::RemoteStatusFailure { status: 500, body: b"oops".to_vec() }
    );
}

#[test]
fn file_responses_hand_the_bytes_through() {
    let data = b"pipy().listen(8080)".to_vec();
    assert_eq!(interpret_file(200, data.clone()).unwrap(), data);
    assert!(matches!(
        interpret_file(404, data).unwrap_err(),
        ApiError::RemoteStatusFailure { status: 404, .. }
    ));
}

#[test]
fn program_responses_distinguish_none_from_a_name() {
    assert_eq!(interpret_program(200, "").unwrap(), None);
    assert_eq!(
        interpret_program(200, "/hello").unwrap(),
        Some("hello".to_string())
    );
    assert!(interpret_program(502, "").is_err());
}

#[test]
fn codebase_precondition_synthesizes_not_found() {
    let listing = vec!["hello".to_string()];
    assert!(check_codebase_listed(&listing, "hello").is_ok());
    assert!(check_codebase_listed(&listing, "/hello").is_ok());
    let err = check_codebase_listed(&listing, "world").unwrap_err();
    assert_eq!(
        err,
        ApiError::NotFound { kind: NotFoundKind::Codebase, name: "world".to_string() }
    );
}

#[test]
fn file_precondition_synthesizes_not_found() {
    let cb = descriptor("1");
    assert!(check_file_listed(&cb, "main.js").is_ok());
    assert!(check_file_listed(&cb, "/main.js").is_ok());
    let err = check_file_listed(&cb, "absent.js").unwrap_err();
    assert_eq!(
        err,
        ApiError::NotFound { kind: NotFoundKind::File, name: "absent.js".to_string() }
    );
}
