//! Repo API client: stateless, host/port-addressed planning of the codebase
//! protocol's requests, interpretation of its responses, and the client-side
//! precondition checks that run before any effecting call.
//!
//! Every operation of the protocol is one or more round trips. The functions
//! here compute, from plain values, exactly which request to send and what a
//! response means; the transport that carries the requests stays outside the
//! library and hands back status and body unchanged.

use vstd::prelude::*;
use vstd::string::StringSliceAdditionalSpecFns;

use crate::codec::{canon, dec_string, dec_val, all_digits, has_name, listing_names, format_u64,
    parse_listing, parse_version, normalize_name};
use crate::descriptor::{Codebase, decode_codebase, decoded_fields, descriptor_decodes};
use crate::errors::{ApiError, NotFoundKind};

verus! {

/// HTTP method of a planned request.
#[derive(Debug, Clone, Copy, PartialEq, Eq, Structural)]
pub enum Method {
    Get,
    Post,
    Patch,
    Delete,
}

/// Body of a planned request.
#[derive(Debug)]
pub enum RequestBody {
    Empty,
    Text(String),
    Bytes(Vec<u8>),
}

/// One planned control-plane request: everything the transport needs.
#[derive(Debug)]
pub struct Request {
    pub method: Method,
    pub url: String,
    pub body: RequestBody,
}

/// `http://<host>:<port>` — the admin origin every path hangs under.
pub open spec fn base_url(host: Seq<char>, port: nat) -> Seq<char> {
    "http://"@ + host + ":"@ + dec_string(port)
}

pub open spec fn repo_list_url(host: Seq<char>, port: nat) -> Seq<char> {
    base_url(host, port) + "/api/v1/repo"@
}

pub open spec fn repo_url(host: Seq<char>, port: nat, name: Seq<char>) -> Seq<char> {
    base_url(host, port) + "/api/v1/repo/"@ + name
}

pub open spec fn file_url(host: Seq<char>, port: nat, name: Seq<char>, file: Seq<char>) -> Seq<
    char,
> {
    base_url(host, port) + "/api/v1/repo-files/"@ + name + "/"@ + file
}

pub open spec fn program_url(host: Seq<char>, port: nat) -> Seq<char> {
    base_url(host, port) + "/api/v1/program"@
}

/// The JSON body a publish submits for the new version.
pub open spec fn publish_body(version: nat) -> Seq<char> {
    "{\"version\": \""@ + dec_string(version) + "\"}"@
}

/// A 2xx status, the remote's only success signal.
pub open spec fn is_success(status: u16) -> bool {
    200 <= status < 300
}

/// Addresses one engine instance's admin endpoint.
pub struct ApiClient {
    pub host: String,
    pub port: u16,
}

impl ApiClient {
    pub fn new(host: &str, port: u16) -> (r: Self)
        ensures
            r.host@ == host@,
            r.port == port,
    {
        ApiClient { host: host.to_owned(), port }
    }

    fn base(&self) -> (r: String)
        ensures
            r@ == base_url(self.host@, self.port as nat),
    {
        let mut r = String::from_str("http://");
        r.append(self.host.as_str());
        r.append(":");
        let p = format_u64(self.port as u64);
        r.append(p.as_str());
        proof {
            assert(r@ =~= base_url(self.host@, self.port as nat));
        }
        r
    }

    /// Plans `GET /api/v1/repo`: the listing of codebase names.
    pub fn list_request(&self) -> (r: Request)
        ensures
            r.method is Get,
            r.url@ == repo_list_url(self.host@, self.port as nat),
            r.body is Empty,
    {
        let mut url = self.base();
        url.append("/api/v1/repo");
        proof {
            assert(url@ =~= repo_list_url(self.host@, self.port as nat));
        }
        Request { method: Method::Get, url, body: RequestBody::Empty }
    }

    fn codebase_url(&self, name: &str) -> (r: String)
        ensures
            r@ == repo_url(self.host@, self.port as nat, name@),
    {
        let mut url = self.base();
        url.append("/api/v1/repo/");
        url.append(name);
        proof {
            assert(url@ =~= repo_url(self.host@, self.port as nat, name@));
        }
        url
    }

    /// Plans `POST /api/v1/repo/{name}`: create the codebase.
    pub fn create_request(&self, name: &str) -> (r: Request)
        ensures
            r.method is Post,
            r.url@ == repo_url(self.host@, self.port as nat, name@),
            r.body is Empty,
    {
        Request { method: Method::Post, url: self.codebase_url(name), body: RequestBody::Empty }
    }

    /// Plans `GET /api/v1/repo/{name}`: fetch the descriptor.
    pub fn descriptor_request(&self, name: &str) -> (r: Request)
        ensures
            r.method is Get,
            r.url@ == repo_url(self.host@, self.port as nat, name@),
            r.body is Empty,
    {
        Request { method: Method::Get, url: self.codebase_url(name), body: RequestBody::Empty }
    }

    fn repo_file_url(&self, name: &str, file: &str) -> (r: String)
        ensures
            r@ == file_url(self.host@, self.port as nat, name@, file@),
    {
        let mut url = self.base();
        url.append("/api/v1/repo-files/");
        url.append(name);
        url.append("/");
        url.append(file);
        proof {
            assert(url@ =~= file_url(self.host@, self.port as nat, name@, file@));
        }
        url
    }

    /// Plans `GET /api/v1/repo-files/{name}/{file}`: fetch raw file bytes.
    pub fn file_request(&self, name: &str, file: &str) -> (r: Request)
        ensures
            r.method is Get,
            r.url@ == file_url(self.host@, self.port as nat, name@, file@),
            r.body is Empty,
    {
        Request {
            method: Method::Get,
            url: self.repo_file_url(name, file),
            body: RequestBody::Empty,
        }
    }

    /// Plans `POST /api/v1/repo-files/{name}/{file}` with the file bytes as
    /// body: write/stage the file.
    pub fn write_request(&self, name: &str, file: &str, data: Vec<u8>) -> (r: Request)
        ensures
            r.method is Post,
            r.url@ == file_url(self.host@, self.port as nat, name@, file@),
            r.body matches RequestBody::Bytes(b) && b@ == data@,
    {
        Request {
            method: Method::Post,
            url: self.repo_file_url(name, file),
            body: RequestBody::Bytes(data),
        }
    }

    /// Plans `PATCH /api/v1/repo/{name}` submitting current version + 1, the
    /// only version number the remote accepts for a publish. Fails with a
    /// decode failure exactly when the descriptor's version field is not a
    /// decimal integer whose successor fits in a `u64`.
    pub fn publish_request(&self, name: &str, descriptor: &Codebase) -> (r: Result<
        Request,
        ApiError,
    >)
        ensures
            r is Ok <==> (descriptor.version@.len() > 0 && all_digits(descriptor.version@)
                && dec_val(descriptor.version@) < u64::MAX),
            r is Err ==> r->Err_0 is DecodeFailure,
            r is Ok ==> {
                &&& r->Ok_0.method is Patch
                &&& r->Ok_0.url@ == repo_url(self.host@, self.port as nat, name@)
                &&& r->Ok_0.body matches RequestBody::Text(t) && t@ == publish_body(
                    dec_val(descriptor.version@) + 1,
                )
            },
    {
        let current = match parse_version(descriptor.version.as_str()) {
            Some(v) => v,
            None => {
                return Err(ApiError::DecodeFailure);
            },
        };
        if current == u64::MAX {
            return Err(ApiError::DecodeFailure);
        }
        let mut body = String::from_str("{\"version\": \"");
        let next = format_u64(current + 1);
        body.append(next.as_str());
        body.append("\"}");
        proof {
            assert(body@ =~= publish_body(dec_val(descriptor.version@) + 1));
        }
        Ok(
            Request {
                method: Method::Patch,
                url: self.codebase_url(name),
                body: RequestBody::Text(body),
            },
        )
    }

    /// Plans `POST /api/v1/program` with the slash-prefixed name as body:
    /// activate the codebase as the running program.
    pub fn activate_request(&self, name: &str) -> (r: Request)
        ensures
            r.method is Post,
            r.url@ == program_url(self.host@, self.port as nat),
            r.body matches RequestBody::Text(t) && t@ == "/"@ + name@,
    {
        let mut url = self.base();
        url.append("/api/v1/program");
        let mut body = String::from_str("/");
        body.append(name);
        proof {
            assert(url@ =~= program_url(self.host@, self.port as nat));
        }
        Request { method: Method::Post, url, body: RequestBody::Text(body) }
    }

    /// Plans `GET /api/v1/program`: query the active program.
    pub fn program_request(&self) -> (r: Request)
        ensures
            r.method is Get,
            r.url@ == program_url(self.host@, self.port as nat),
            r.body is Empty,
    {
        let mut url = self.base();
        url.append("/api/v1/program");
        proof {
            assert(url@ =~= program_url(self.host@, self.port as nat));
        }
        Request { method: Method::Get, url, body: RequestBody::Empty }
    }

    /// Plans `DELETE /api/v1/program`: deactivate the running program.
    pub fn deactivate_request(&self) -> (r: Request)
        ensures
            r.method is Delete,
            r.url@ == program_url(self.host@, self.port as nat),
            r.body is Empty,
    {
        let mut url = self.base();
        url.append("/api/v1/program");
        proof {
            assert(url@ =~= program_url(self.host@, self.port as nat));
        }
        Request { method: Method::Delete, url, body: RequestBody::Empty }
    }
}

/// Classifies a status-only response: success exactly on 2xx, otherwise the
/// remote's status and body are surfaced unchanged.
pub fn interpret_unit(status: u16, body: Vec<u8>) -> (r: Result<(), ApiError>)
    ensures
        r is Ok <==> is_success(status),
        r is Err ==> (r->Err_0 matches ApiError::RemoteStatusFailure { status: s, body: b }
            && s == status && b@ == body@),
{
    if 200 <= status && status < 300 {
        Ok(())
    } else {
        Err(ApiError::RemoteStatusFailure { status, body })
    }
}

/// Interprets the listing response: on 2xx, the canonical names of the
/// newline-delimited body, an empty body yielding an empty listing.
pub fn interpret_listing(status: u16, body: &str) -> (r: Result<Vec<String>, ApiError>)
    ensures
        r is Ok <==> is_success(status),
        r is Ok ==> r->Ok_0@.map_values(|s: String| s@) == listing_names(body@),
        r is Err ==> (r->Err_0 matches ApiError::RemoteStatusFailure { status: s, body: b }
            && s == status && b@ == body.spec_bytes()),
{
    if 200 <= status && status < 300 {
        Ok(parse_listing(body))
    } else {
        Err(ApiError::RemoteStatusFailure { status, body: body.as_bytes_vec() })
    }
}

/// Interprets the descriptor response: on 2xx the decoded descriptor, the
/// decode failing exactly when a required field is absent.
pub fn interpret_descriptor(status: u16, body: &Vec<u8>) -> (r: Result<Codebase, ApiError>)
    ensures
        r is Ok <==> (is_success(status) && descriptor_decodes(body@)),
        r is Ok ==> decoded_fields(r->Ok_0, body@),
        is_success(status) && !descriptor_decodes(body@) ==> r->Err_0 is DecodeFailure,
        !is_success(status) ==> (r->Err_0 matches ApiError::RemoteStatusFailure {
            status: s,
            body: b,
        } && s == status && b@ == body@),
{
    if 200 <= status && status < 300 {
        decode_codebase(body)
    } else {
        Err(ApiError::RemoteStatusFailure { status, body: body.clone() })
    }
}

/// Interprets a raw-file response: the body bytes, unchanged, on 2xx.
pub fn interpret_file(status: u16, body: Vec<u8>) -> (r: Result<Vec<u8>, ApiError>)
    ensures
        r is Ok <==> is_success(status),
        r is Ok ==> r->Ok_0@ == body@,
        r is Err ==> (r->Err_0 matches ApiError::RemoteStatusFailure { status: s, body: b }
            && s == status && b@ == body@),
{
    if 200 <= status && status < 300 {
        Ok(body)
    } else {
        Err(ApiError::RemoteStatusFailure { status, body })
    }
}

/// Interprets the active-program response: none on an empty body, otherwise
/// the canonical program name.
pub fn interpret_program(status: u16, body: &str) -> (r: Result<Option<String>, ApiError>)
    ensures
        r is Ok <==> is_success(status),
        r is Ok ==> match r->Ok_0 {
            Some(name) => body@.len() > 0 && name@ == canon(body@),
            None => body@.len() == 0,
        },
        r is Err ==> (r->Err_0 matches ApiError::RemoteStatusFailure { status: s, body: b }
            && s == status && b@ == body.spec_bytes()),
{
    if !(200 <= status && status < 300) {
        return Err(ApiError::RemoteStatusFailure { status, body: body.as_bytes_vec() });
    }
    if body.unicode_len() == 0 {
        Ok(None)
    } else {
        Ok(Some(normalize_name(body)))
    }
}

/// The precondition check before any per-codebase call: the name must stand
/// in the listing the remote itself reported. Fails with the synthesized
/// `NotFound(Codebase)` exactly when it does not, so that no effecting call
/// is attempted.
pub fn check_codebase_listed(listing: &Vec<String>, name: &str) -> (r: Result<(), ApiError>)
    ensures
        r is Ok <==> has_name(listing@.map_values(|s: String| s@), name@),
        r is Err ==> (r->Err_0 matches ApiError::NotFound { kind, name: n }
            && kind is Codebase && n@ == name@),
{
    if crate::codec::contains_name(listing, name) {
        Ok(())
    } else {
        Err(ApiError::NotFound { kind: NotFoundKind::Codebase, name: name.to_owned() })
    }
}

/// The precondition check before fetching a file: the file must be a member
/// of the descriptor's `files`. Fails with the synthesized `NotFound(File)`
/// exactly when it is not, before any network call for the file is made.
pub fn check_file_listed(descriptor: &Codebase, file: &str) -> (r: Result<(), ApiError>)
    ensures
        r is Ok <==> descriptor.spec_has_file(file@),
        r is Err ==> (r->Err_0 matches ApiError::NotFound { kind, name: n } && kind is File
            && n@ == file@),
{
    if descriptor.has_file(file) {
        Ok(())
    } else {
        Err(ApiError::NotFound { kind: NotFoundKind::File, name: file.to_owned() })
    }
}

} // verus!
