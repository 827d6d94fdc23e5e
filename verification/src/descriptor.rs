//! The JSON codebase descriptor: the `Codebase` record and its decoder.
//!
//! The descriptor arrives as a JSON object. Decoding tolerates and ignores
//! unrecognized fields and fails exactly when one of the required fields is
//! absent or not of its required shape. The JSON parsing itself is done by
//! the `serde_json` crate behind two trusted wrappers; what each field decodes
//! to is named by an uninterpreted spec function, and everything after the
//! parse is verified against those names.

use vstd::prelude::*;

use crate::codec::has_name;
use crate::errors::ApiError;

verus! {

/// A named, versioned bundle of source files, as the remote service
/// describes it.
#[derive(Debug)]
pub struct Codebase {
    /// Monotonically increasing integer, transmitted as a string.
    pub version: String,
    /// Canonical slash-prefixed identifier.
    pub path: String,
    /// Designated entry file.
    pub main: String,
    /// Files currently constituting the codebase.
    pub files: Vec<String>,
    /// Files modified since the last publish.
    pub edit_files: Vec<String>,
    /// Files removed since the last publish.
    pub erased_files: Vec<String>,
    /// Files inherited unmodified from a parent codebase.
    pub base_files: Vec<String>,
    /// Codebases forked from this one.
    pub derived: Vec<String>,
}

impl Codebase {
    /// Whether `file` is a member of `files`, either name form tolerated.
    pub open spec fn spec_has_file(&self, file: Seq<char>) -> bool {
        has_name(self.files@.map_values(|s: String| s@), file)
    }

    /// Membership of a file name in the descriptor's file list.
    pub fn has_file(&self, file: &str) -> (r: bool)
        ensures
            r == self.spec_has_file(file@),
    {
        crate::codec::contains_name(&self.files, file)
    }
}

pub open spec fn str_opt_view(o: Option<String>) -> Option<Seq<char>> {
    match o {
        Some(s) => Some(s@),
        None => None,
    }
}

pub open spec fn strs_view(v: Seq<String>) -> Seq<Seq<char>> {
    v.map_values(|s: String| s@)
}

pub open spec fn strs_opt_view(o: Option<Vec<String>>) -> Option<Seq<Seq<char>>> {
    match o {
        Some(v) => Some(strs_view(v@)),
        None => None,
    }
}

/// The named top-level string field of the JSON object in `body`, or none if
/// `body` is not a JSON object with a string at that key.
pub uninterp spec fn json_string_field(body: Seq<u8>, key: Seq<char>) -> Option<Seq<char>>;

/// The named top-level array-of-strings field of the JSON object in `body`,
/// or none if `body` is not a JSON object with an array of strings there.
pub uninterp spec fn json_string_list_field(body: Seq<u8>, key: Seq<char>) -> Option<
    Seq<Seq<char>>,
>;

/// Relies on `serde_json::from_slice::<Value>`, `Value::get` and
/// `Value::as_str`: extracts the named top-level string field of the JSON
/// object in `body`. The result depends on the bytes and the key alone.
#[verifier::external_body]
fn get_string_field(body: &Vec<u8>, key: &str) -> (r: Option<String>)
    ensures
        str_opt_view(r) == json_string_field(body@, key@),
{
    match serde_json::from_slice::<serde_json::Value>(body.as_slice()) {
        Ok(v) => v.get(key).and_then(|f| f.as_str()).map(|s| s.to_string()),
        Err(_) => None,
    }
}

/// Relies on `serde_json::from_slice::<Value>`, `Value::get`,
/// `Value::as_array` and `Value::as_str`: extracts the named top-level field
/// of the JSON object in `body` as a list of strings. The result depends on
/// the bytes and the key alone.
#[verifier::external_body]
fn get_string_list_field(body: &Vec<u8>, key: &str) -> (r: Option<Vec<String>>)
    ensures
        strs_opt_view(r) == json_string_list_field(body@, key@),
{
    let v: serde_json::Value = match serde_json::from_slice(body.as_slice()) {
        Ok(v) => v,
        Err(_) => return None,
    };
    let arr = v.get(key)?.as_array()?;
    let mut out = Vec::new();
    for item in arr {
        out.push(item.as_str()?.to_string());
    }
    Some(out)
}

/// Whether `body` holds a decodable descriptor: a JSON object with every
/// required field present and of its required shape.
pub open spec fn descriptor_decodes(body: Seq<u8>) -> bool {
    &&& json_string_field(body, "version"@) is Some
    &&& json_string_field(body, "path"@) is Some
    &&& json_string_field(body, "main"@) is Some
    &&& json_string_list_field(body, "files"@) is Some
    &&& json_string_list_field(body, "edit_files"@) is Some
    &&& json_string_list_field(body, "erased_files"@) is Some
    &&& json_string_list_field(body, "base_files"@) is Some
    &&& json_string_list_field(body, "derived"@) is Some
}

/// The decoded record carries exactly the document's required fields.
pub open spec fn decoded_fields(cb: Codebase, body: Seq<u8>) -> bool {
    &&& cb.version@ == json_string_field(body, "version"@)->Some_0
    &&& cb.path@ == json_string_field(body, "path"@)->Some_0
    &&& cb.main@ == json_string_field(body, "main"@)->Some_0
    &&& strs_view(cb.files@) == json_string_list_field(body, "files"@)->Some_0
    &&& strs_view(cb.edit_files@) == json_string_list_field(body, "edit_files"@)->Some_0
    &&& strs_view(cb.erased_files@) == json_string_list_field(body, "erased_files"@)->Some_0
    &&& strs_view(cb.base_files@) == json_string_list_field(body, "base_files"@)->Some_0
    &&& strs_view(cb.derived@) == json_string_list_field(body, "derived"@)->Some_0
}

/// Decodes a JSON codebase descriptor. Succeeds exactly when every required
/// field is present, whatever other fields stand beside them; each field of
/// the result is the corresponding field of the document.
pub fn decode_codebase(body: &Vec<u8>) -> (r: Result<Codebase, ApiError>)
    ensures
        r is Ok <==> descriptor_decodes(body@),
        r is Err ==> r->Err_0 is DecodeFailure,
        r is Ok ==> decoded_fields(r->Ok_0, body@),
{
    let version = match get_string_field(body, "version") {
        Some(s) => s,
        None => {
            return Err(ApiError::DecodeFailure);
        },
    };
    let path = match get_string_field(body, "path") {
        Some(s) => s,
        None => {
            return Err(ApiError::DecodeFailure);
        },
    };
    let main = match get_string_field(body, "main") {
        Some(s) => s,
        None => {
            return Err(ApiError::DecodeFailure);
        },
    };
    let files = match get_string_list_field(body, "files") {
        Some(v) => v,
        None => {
            return Err(ApiError::DecodeFailure);
        },
    };
    let edit_files = match get_string_list_field(body, "edit_files") {
        Some(v) => v,
        None => {
            return Err(ApiError::DecodeFailure);
        },
    };
    let erased_files = match get_string_list_field(body, "erased_files") {
        Some(v) => v,
        None => {
            return Err(ApiError::DecodeFailure);
        },
    };
    let base_files = match get_string_list_field(body, "base_files") {
        Some(v) => v,
        None => {
            return Err(ApiError::DecodeFailure);
        },
    };
    let derived = match get_string_list_field(body, "derived") {
        Some(v) => v,
        None => {
            return Err(ApiError::DecodeFailure);
        },
    };
    Ok(
        Codebase {
            version,
            path,
            main,
            files,
            edit_files,
            erased_files,
            base_files,
            derived,
        },
    )
}

} // verus!
