//! The decisions of the two worker deployments, which receive a method and
//! an absolute request URL.

use vstd::prelude::*;
use vstd::utf8::encode_utf8;
use vstd::string::StringSliceAdditionalSpecFns;
use crate::text::spec_eq_ignore_ascii_case;
use crate::request::{keyed_requested_size, method_action, served_size, spec_keyed_requested_size,
    spec_method_action, spec_served_size, spec_strict_requested_size, strict_requested_size,
    MethodAction};

verus! {

/// Whether `fluent_uri::Uri::try_from` accepts `url` as an absolute URI
/// (RFC 3986, `URI` rule).
pub uninterp spec fn uri_parses(url: Seq<char>) -> bool;

/// The path component that `fluent_uri::Uri::path` returns for the URI
/// parsed from `url`.
pub uninterp spec fn uri_path(url: Seq<char>) -> Seq<char>;

/// The query component that `fluent_uri::Uri::query` returns for the URI
/// parsed from `url`, if it has one.
pub uninterp spec fn uri_query(url: Seq<char>) -> Option<Seq<char>>;

/// `fluent_uri::Uri::try_from(url)`, then `Uri::query` and `Uri::path` of the
/// result, each component as its raw (still percent-encoded) text. Trusted
/// to succeed exactly when `uri_parses(url)` and to return the components
/// named by `uri_query` and `uri_path`, which depend on `url` alone; the
/// grammar itself is not written out here.
#[verifier::external_body]
fn split_uri(url: &str) -> (r: Option<(Option<&str>, &str)>)
    ensures
        r is Some <==> uri_parses(url@),
        r matches Some((q, p)) ==> {
            &&& p@ == uri_path(url@)
            &&& match q {
                Some(q) => uri_query(url@) == Some(q@),
                None => uri_query(url@) is None,
            }
        },
{
    match fluent_uri::Uri::try_from(url) {
        Ok(uri) => {
            let query = match uri.query() {
                Some(q) => Some(q.as_str()),
                None => None,
            };
            Some((query, uri.path().as_str()))
        },
        Err(_) => None,
    }
}

/// The bytes of the query component of `url`, if it has one.
pub open spec fn url_query_bytes(url: Seq<char>) -> Option<Seq<u8>> {
    match uri_query(url) {
        Some(q) => Some(encode_utf8(q)),
        None => None,
    }
}

/// How a worker answers a request.
#[derive(PartialEq, Eq, Structural, Debug, Clone, Copy)]
pub enum WorkerPlan {
    /// `HEAD`: 200 with no body.
    Head,
    /// A method other than `GET` and `HEAD`: 405.
    NotAllowed,
    /// The URL is not an absolute URI: the request fails.
    InvalidUrl,
    /// The query names no size and reading the path panics (see
    /// `PathPanic`): the request gets no answer.
    PathPanics,
    /// Answer with the frame for this many zero bytes.
    Serve(u64),
}

/// How the cf-speedtest worker answers a request.
pub open spec fn spec_keyed_worker_plan(method: Seq<u8>, url: Seq<char>, default: u64, max: u64) -> WorkerPlan {
    match spec_method_action(method) {
        MethodAction::Head => WorkerPlan::Head,
        MethodAction::NotAllowed => WorkerPlan::NotAllowed,
        MethodAction::Serve => if !uri_parses(url) {
            WorkerPlan::InvalidUrl
        } else {
            match spec_keyed_requested_size(url_query_bytes(url), uri_path(url)) {
                Err(_) => WorkerPlan::PathPanics,
                Ok(requested) => WorkerPlan::Serve(spec_served_size(requested, default, max)),
            }
        },
    }
}

/// How the cf-speedtest worker answers a request: `HEAD` and unknown
/// methods get an empty answer, a `GET` whose URL does not parse fails, and
/// any other `GET` is served with the size its query (last pair keyed
/// exactly `bytes`) or path names, `default` when none, capped at `max`.
pub fn keyed_worker_plan(method: &str, url: &str, default: u64, max: u64) -> (r: WorkerPlan)
    requires
        default > 0,
        max > 0,
    ensures
        r == spec_keyed_worker_plan(method.spec_bytes(), url@, default, max),
{
    match method_action(method) {
        MethodAction::Head => WorkerPlan::Head,
        MethodAction::NotAllowed => WorkerPlan::NotAllowed,
        MethodAction::Serve => match split_uri(url) {
            None => WorkerPlan::InvalidUrl,
            Some((query, path)) => match keyed_requested_size(query, path) {
                Err(_) => WorkerPlan::PathPanics,
                Ok(requested) => WorkerPlan::Serve(served_size(requested, default, max)),
            },
        },
    }
}


/// What the tespeed worker makes of a request, before it sizes the payload.
#[derive(PartialEq, Eq, Structural, Debug, Clone, Copy)]
pub enum WorkerRequest {
    /// `HEAD`: 200 with no body.
    Head,
    /// A method other than `GET` and `HEAD`: 405.
    NotAllowed,
    /// The URL is not an absolute URI: the request fails.
    InvalidUrl,
    /// The query names no size and reading the path panics (see
    /// `PathPanic`): the request gets no answer.
    PathPanics,
    /// A download of the size the request names, if it names one.
    Download(Option<u64>),
}

/// What the tespeed worker makes of a request.
pub open spec fn spec_strict_worker_request(method: Seq<u8>, url: Seq<char>) -> WorkerRequest {
    match spec_method_action(method) {
        MethodAction::Head => WorkerRequest::Head,
        MethodAction::NotAllowed => WorkerRequest::NotAllowed,
        MethodAction::Serve => if !uri_parses(url) {
            WorkerRequest::InvalidUrl
        } else {
            match spec_strict_requested_size(url_query_bytes(url), uri_path(url)) {
                Err(_) => WorkerRequest::PathPanics,
                Ok(requested) => WorkerRequest::Download(requested),
            }
        },
    }
}

/// What the tespeed worker makes of a request: `HEAD` and unknown methods
/// get an empty answer, a `GET` whose URL does not parse fails, and any other
/// `GET` is a download of the size its query (first pair keyed `bytes`, value
/// up to the next `=`) or path names.
pub fn strict_worker_request(method: &str, url: &str) -> (r: WorkerRequest)
    ensures
        r == spec_strict_worker_request(method.spec_bytes(), url@),
{
    match method_action(method) {
        MethodAction::Head => WorkerRequest::Head,
        MethodAction::NotAllowed => WorkerRequest::NotAllowed,
        MethodAction::Serve => match split_uri(url) {
            None => WorkerRequest::InvalidUrl,
            Some((query, path)) => match strict_requested_size(query, path) {
                Err(_) => WorkerRequest::PathPanics,
                Ok(requested) => WorkerRequest::Download(requested),
            },
        },
    }
}


/// The spelling of `GET`.
pub open spec fn get_method() -> Seq<u8> {
    seq![71u8, 69u8, 84u8]
}

/// The spelling of `HEAD`.
pub open spec fn head_method() -> Seq<u8> {
    seq![72u8, 69u8, 65u8, 68u8]
}

/// Both workers answer `HEAD`, in any ASCII case, with an empty 200,
/// whatever the URL, and any method other than `GET` and `HEAD` with 405,
/// whatever the URL.
pub proof fn lemma_worker_method_filter(method: Seq<u8>, url: Seq<char>, default: u64, max: u64)
    ensures
        spec_eq_ignore_ascii_case(method, head_method()) ==> {
            &&& spec_keyed_worker_plan(method, url, default, max) == WorkerPlan::Head
            &&& spec_strict_worker_request(method, url) == WorkerRequest::Head
        },
        !spec_eq_ignore_ascii_case(method, get_method()) && !spec_eq_ignore_ascii_case(
            method,
            head_method(),
        ) ==> {
            &&& spec_keyed_worker_plan(method, url, default, max) == WorkerPlan::NotAllowed
            &&& spec_strict_worker_request(method, url) == WorkerRequest::NotAllowed
        },
{
}

/// A `GET`, in any ASCII case, fails when its URL does not parse; otherwise
/// it is sized from the URL's query and path as `keyed_requested_size` and
/// `strict_requested_size` size them: the cf-speedtest worker serves that
/// size (`default` when none, capped at `max`), the tespeed worker downloads
/// it, and both give `PathPanics` where reading the path panics.
pub proof fn lemma_worker_get(method: Seq<u8>, url: Seq<char>, default: u64, max: u64)
    requires
        spec_eq_ignore_ascii_case(method, get_method()),
    ensures
        !uri_parses(url) ==> {
            &&& spec_keyed_worker_plan(method, url, default, max) == WorkerPlan::InvalidUrl
            &&& spec_strict_worker_request(method, url) == WorkerRequest::InvalidUrl
        },
        uri_parses(url) ==> spec_keyed_worker_plan(method, url, default, max) == match spec_keyed_requested_size(
            url_query_bytes(url),
            uri_path(url),
        ) {
            Err(_) => WorkerPlan::PathPanics,
            Ok(requested) => WorkerPlan::Serve(spec_served_size(requested, default, max)),
        },
        uri_parses(url) ==> spec_strict_worker_request(method, url) == match spec_strict_requested_size(
            url_query_bytes(url),
            uri_path(url),
        ) {
            Err(_) => WorkerRequest::PathPanics,
            Ok(requested) => WorkerRequest::Download(requested),
        },
{
}

} // verus!
