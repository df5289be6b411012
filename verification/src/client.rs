//! Request planning: the client handle, the fixed base URL, and the
//! fully-formed request value for each operation of the API.

use vstd::prelude::*;
use crate::text::{dec_int, join_url, push_dec_int, url_join};

verus! {

/// The HTTP method of a planned request.
#[derive(Clone, Copy, PartialEq, Eq, Structural, Debug)]
pub enum Method {
    Get,
    Delete,
    Post,
    Put,
    Patch,
}

/// The production endpoint all relative paths are joined onto by default.
pub open spec fn spec_default_base_url() -> Seq<char> {
    "https://api.cfptime.org/api/"@
}

/// The content type every planned request carries.
pub open spec fn spec_content_type() -> Seq<char> {
    "application/json; charset=utf-8"@
}

/// The relative path of the `get CFP by id` operation.
pub open spec fn spec_cfp_path(id: int) -> Seq<char> {
    "cfps/"@ + dec_int(id) + "/"@
}

/// The relative path of the `get conference by id` operation.
pub open spec fn spec_conf_path(id: int) -> Seq<char> {
    "conferences/"@ + dec_int(id) + "/"@
}

/// A fully-formed request, ready for a transport to execute: method, the
/// absolute URL, the content type header value, and the JSON body, if any.
pub struct ApiRequest {
    pub method: Method,
    pub url: String,
    pub content_type: String,
    pub body: Option<String>,
}

/// The client handle: owns the base URL fixed at construction.  Every
/// operation's request is planned relative to it; the handle itself is
/// never mutated.
pub struct CFPTime {
    pub base_url: String,
}

impl CFPTime {
    /// A client against the production endpoint.
    pub fn new() -> (c: Self)
        ensures
            c.base_url@ == spec_default_base_url(),
    {
        CFPTime { base_url: String::from_str("https://api.cfptime.org/api/") }
    }

    /// A client against a caller-chosen endpoint (a test double, a mirror).
    pub fn with_base_url(base_url: String) -> (c: Self)
        ensures
            c.base_url@ == base_url@,
    {
        CFPTime { base_url }
    }

    /// Plans one request: joins `path` onto the base URL and attaches the
    /// body — except on GET and DELETE, which never carry one, whatever was
    /// supplied.
    pub fn request(&self, method: Method, path: &str, body: Option<String>) -> (r: ApiRequest)
        ensures
            r.method == method,
            r.url@ == url_join(self.base_url@, path@),
            r.content_type@ == spec_content_type(),
            method == Method::Get || method == Method::Delete ==> r.body is None,
            method != Method::Get && method != Method::Delete ==> r.body == body,
    {
        let url = join_url(self.base_url.as_str(), path);
        let attached: Option<String> = match method {
            Method::Get | Method::Delete => None,
            _ => body,
        };
        ApiRequest {
            method,
            url,
            content_type: String::from_str("application/json; charset=utf-8"),
            body: attached,
        }
    }

    /// The request of `list CFPs`: GET `cfps`, no body.
    pub fn get_cfps_request(&self) -> (r: ApiRequest)
        ensures
            r.method == Method::Get,
            r.url@ == url_join(self.base_url@, "cfps"@),
            r.content_type@ == spec_content_type(),
            r.body is None,
    {
        self.request(Method::Get, "cfps", None)
    }

    /// The request of `get CFP by id`: GET `cfps/{id}/`, no body.
    pub fn get_cfp_request(&self, cfp_id: i32) -> (r: ApiRequest)
        ensures
            r.method == Method::Get,
            r.url@ == url_join(self.base_url@, spec_cfp_path(cfp_id as int)),
            r.content_type@ == spec_content_type(),
            r.body is None,
    {
        let mut path = String::from_str("cfps/");
        push_dec_int(&mut path, cfp_id);
        path.append("/");
        self.request(Method::Get, path.as_str(), None)
    }

    /// The request of `list conferences`: GET `conferences`, no body.
    pub fn get_confs_request(&self) -> (r: ApiRequest)
        ensures
            r.method == Method::Get,
            r.url@ == url_join(self.base_url@, "conferences"@),
            r.content_type@ == spec_content_type(),
            r.body is None,
    {
        self.request(Method::Get, "conferences", None)
    }

    /// The request of `get conference by id`: GET `conferences/{id}/`, no body.
    pub fn get_conf_request(&self, conf_id: i32) -> (r: ApiRequest)
        ensures
            r.method == Method::Get,
            r.url@ == url_join(self.base_url@, spec_conf_path(conf_id as int)),
            r.content_type@ == spec_content_type(),
            r.body is None,
    {
        let mut path = String::from_str("conferences/");
        push_dec_int(&mut path, conf_id);
        path.append("/");
        self.request(Method::Get, path.as_str(), None)
    }

    /// The request of `list upcoming`: GET `upcoming`, no body.
    pub fn get_upcoming_request(&self) -> (r: ApiRequest)
        ensures
            r.method == Method::Get,
            r.url@ == url_join(self.base_url@, "upcoming"@),
            r.content_type@ == spec_content_type(),
            r.body is None,
    {
        self.request(Method::Get, "upcoming", None)
    }
}

/// How many times the transport retries a transient failure (a timeout, a
/// connection reset, a 5xx answer) before the error reaches the caller.
pub const MAX_TRANSIENT_RETRIES: u32 = 3;

} // verus!
