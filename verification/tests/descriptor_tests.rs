use pipy_rs::descriptor::decode_codebase;
use pipy_rs::errors::ApiError;

fn bytes(s: &str) -> Vec<u8> {
    s.as_bytes().to_vec()
}

#[test]
fn test_codebase_serde() {
    let correct = r#"
                {
                    "version": "0.1",
                    "path": "/test",
                    "main": "main.py",
                    "files": ["main.py", "util.py"],
                    "edit_files": ["main.py"],
                    "erased_files": [],
                    "base_files": [],
                    "derived": [],
                    "instances": []
                }"#;
    decode_codebase(&bytes(correct)).expect("correct json failed");

    let extra_field = r#"
                {
                    "version": "0.1",
                    "path": "/test",
                    "main": "main.py",
                    "files": ["main.py", "util.py"],
                    "edit_files": ["main.py"],
                    "erased_files": [],
                    "base_files": [],
                    "derived": [],
                    "instances": [],
                    "extra_field": "extra"
                }"#;
    decode_codebase(&bytes(extra_field)).expect("extra json failed");

    // Every required descriptor field is present here; only the optional
    // "instances" is absent, which decoding ignores either way.
    let missing_field = r#"
                {
                    "version": "0.1",
                    "path": "/test",
                    "main": "main.py",
                    "files": ["main.py", "util.py"],
                    "edit_files": ["main.py"],
                    "erased_files": [],
                    "base_files": [],
                    "derived": []
                }"#;
    decode_codebase(&bytes(missing_field)).expect("all required fields present");
}

#[test]
fn decoded_fields_carry_the_document() {
    let doc = r#"{
        "version": "3",
        "path": "/hello",
        "main": "main.js",
        "files": ["main.js", "lib.js"],
        "edit_files": ["lib.js"],
        "erased_files": [],
        "base_files": [],
        "derived": ["fork"]
    }"#;
    let cb = decode_codebase(&bytes(doc)).unwrap();
    assert_eq!(cb.version, "3");
    assert_eq!(cb.path, "/hello");
    assert_eq!(cb.main, "main.js");
    assert_eq!(cb.files, vec!["main.js".to_string(), "lib.js".to_string()]);
    assert_eq!(cb.edit_files, vec!["lib.js".to_string()]);
    assert!(cb.erased_files.is_empty());
    assert!(cb.base_files.is_empty());
    assert_eq!(cb.derived, vec!["fork".to_string()]);
}

#[test]
fn decode_fails_without_a_required_field() {
    let no_version = r#"{
        "path": "/t",
        "main": "m",
        "files": [],
        "edit_files": [],
        "erased_files": [],
        "base_files": [],
        "derived": []
    }"#;
    let err = decode_codebase(&bytes(no_version)).unwrap_err();
    assert!(matches!(err, ApiError::DecodeFailure));

    let no_files = r#"{
        "version": "1",
        "path": "/t",
        "main": "m",
        "edit_files": [],
        "erased_files": [],
        "base_files": [],
        "derived": []
    }"#;
    assert!(matches!(
        decode_codebase(&bytes(no_files)).unwrap_err(),
        ApiError::DecodeFailure
    ));
}

#[test]
fn decode_fails_on_wrongly_shaped_fields() {
    let version_not_a_string = r#"{
        "version": 1,
        "path": "/t",
        "main": "m",
        "files": [],
        "edit_files": [],
        "erased_files": [],
        "base_files": [],
        "derived": []
    }"#;
    assert!(matches!(
        decode_codebase(&bytes(version_not_a_string)).unwrap_err(),
        ApiError::DecodeFailure
    ));

    let files_not_strings = r#"{
        "version": "1",
        "path": "/t",
        "main": "m",
        "files": [1, 2],
        "edit_files": [],
        "erased_files": [],
        "base_files": [],
        "derived": []
    }"#;
    assert!(matches!(
        decode_codebase(&bytes(files_not_strings)).unwrap_err(),
        ApiError::DecodeFailure
    ));
}

#[test]
fn decode_fails_on_malformed_json() {
    assert!(matches!(
        decode_codebase(&bytes("not json at all")).unwrap_err(),
        ApiError::DecodeFailure
    ));
    assert!(matches!(
        decode_codebase(&bytes("[1, 2, 3]")).unwrap_err(),
        ApiError::DecodeFailure
    ));
}

#[test]
fn file_membership_tolerates_either_name_form() {
    let doc = r#"{
        "version": "1",
        "path": "/t",
        "main": "main.js",
        "files": ["/main.js", "util.js"],
        "edit_files": [],
        "erased_files": [],
        "base_files": [],
        "derived": []
    }"#;
    let cb = decode_codebase(&bytes(doc)).unwrap();
    assert!(cb.has_file("main.js"));
    assert!(cb.has_file("/main.js"));
    assert!(cb.has_file("util.js"));
    assert!(cb.has_file("/util.js"));
    assert!(!cb.has_file("absent.js"));
}
