//! Turning a download request into a payload size.
//!
//! A request names its size in the query string (`?bytes=<n>`) or, failing
//! that, in the path (`/100MB.test`). The size is then capped; requests that
//! name no size get a default.

use vstd::prelude::*;
use vstd::string::StringSliceAdditionalSpecFns;
use crate::query::{keyed_query_size, query_size, spec_keyed_query_size, spec_query_size,
    spec_strict_query_size, strict_query_size};
use crate::path::{path_size_panics, path_size, path_panics, spec_path_size,
    worker_path_size, worker_path_panics, worker_route_prefix};
use crate::search::{contains, contains_subslice, occurs_at};
use crate::text::{eq_ignore_ascii_case, spec_eq_ignore_ascii_case};

verus! {

/// Reading the size out of the request path panics: the last numeric
/// character takes more than one byte, or base times unit overflows a `u64`
/// (see `path_size_panics`). The request then gets no answer.
#[derive(PartialEq, Eq, Structural, Debug, Clone, Copy)]
pub struct PathPanic;

/// The size the path names, or `PathPanic` where reading it panics.
pub open spec fn path_fallback(path: Seq<char>, prefix: Seq<char>) -> Result<Option<u64>, PathPanic> {
    if path_size_panics(path, prefix) {
        Err(PathPanic)
    } else {
        Ok(spec_path_size(path, prefix))
    }
}

/// The size from the query if it names one, else what the path gives.
pub open spec fn first_of(a: Option<u64>, b: Result<Option<u64>, PathPanic>) -> Result<Option<u64>, PathPanic> {
    match a {
        Some(v) => Ok(Some(v)),
        None => b,
    }
}

/// The query string's bytes, if the request has a query.
pub open spec fn query_bytes(query: Option<&str>) -> Option<Seq<u8>> {
    match query {
        Some(q) => Some(q.spec_bytes()),
        None => None,
    }
}

/// The size a server request asks for: the query's `bytes` pair, else the
/// path. The path is only read when the query names no size.
pub open spec fn spec_requested_size(query: Option<Seq<u8>>, path: Seq<char>) -> Result<Option<u64>, PathPanic> {
    first_of(
        match query { Some(q) => spec_query_size(q), None => None },
        path_fallback(path, Seq::empty()),
    )
}

/// The size a request to the cf-speedtest worker asks for.
pub open spec fn spec_keyed_requested_size(query: Option<Seq<u8>>, path: Seq<char>) -> Result<Option<u64>, PathPanic> {
    first_of(
        match query { Some(q) => spec_keyed_query_size(q), None => None },
        path_fallback(path, worker_route_prefix()),
    )
}

/// The size a request to the tespeed worker asks for.
pub open spec fn spec_strict_requested_size(query: Option<Seq<u8>>, path: Seq<char>) -> Result<Option<u64>, PathPanic> {
    first_of(
        match query { Some(q) => spec_strict_query_size(q), None => None },
        path_fallback(path, worker_route_prefix()),
    )
}

/// The size a server request asks for: the first `bytes=<n>` pair of the
/// query, else the size in the path; `Ok(None)` when neither names a size.
/// The path is read only when the query names no size, and `Err(PathPanic)`
/// marks a path whose reading panics: a multi-byte last numeric character
/// or an overflowing product (see `path_size_panics`).
pub fn requested_size(query: Option<&str>, path: &str) -> (r: Result<Option<u64>, PathPanic>)
    ensures
        r == spec_requested_size(query_bytes(query), path@),
        r matches Ok(Some(n)) ==> n > 0,
{
    let from_query = match query {
        Some(q) => query_size(q),
        None => None,
    };
    proof {
        if let Some(q) = query {
            crate::query::lemma_query_size_positive(q.spec_bytes());
        }
    }
    match from_query {
        Some(v) => Ok(Some(v)),
        None => if path_panics(path) {
            Err(PathPanic)
        } else {
            Ok(path_size(path))
        },
    }
}


/// The size a request to the cf-speedtest worker asks for: the value of the
/// last pair keyed exactly `bytes`, else the size in the path after the
/// `/speedtest` route prefix. `Ok(None)` and `Err` as for `requested_size`.
pub fn keyed_requested_size(query: Option<&str>, path: &str) -> (r: Result<Option<u64>, PathPanic>)
    ensures
        r == spec_keyed_requested_size(query_bytes(query), path@),
        r matches Ok(Some(n)) ==> n > 0,
{
    let from_query = match query {
        Some(q) => keyed_query_size(q),
        None => None,
    };
    match from_query {
        Some(v) => Ok(Some(v)),
        None => if worker_path_panics(path) {
            Err(PathPanic)
        } else {
            Ok(worker_path_size(path))
        },
    }
}

/// The size a request to the tespeed worker asks for: the first pair keyed
/// `bytes` whose value up to the next `=` is a size, else the size in the
/// path after the `/speedtest` route prefix. `Ok(None)` and `Err` as for
/// `requested_size`.
pub fn strict_requested_size(query: Option<&str>, path: &str) -> (r: Result<Option<u64>, PathPanic>)
    ensures
        r == spec_strict_requested_size(query_bytes(query), path@),
        r matches Ok(Some(n)) ==> n > 0,
{
    let from_query = match query {
        Some(q) => strict_query_size(q),
        None => None,
    };
    proof {
        if let Some(q) = query {
            crate::query::lemma_strict_query_size_positive(q.spec_bytes());
        }
    }
    match from_query {
        Some(v) => Ok(Some(v)),
        None => if worker_path_panics(path) {
            Err(PathPanic)
        } else {
            Ok(worker_path_size(path))
        },
    }
}

/// The size served: the requested size, or `default` when none was asked
/// for, capped at `max`.
pub open spec fn spec_served_size(requested: Option<u64>, default: u64, max: u64) -> u64 {
    let n = match requested {
        Some(v) => v,
        None => default,
    };
    if n <= max { n } else { max }
}

/// The size served for a request: `requested`, or `default` when the request
/// names none, and never more than `max`.
pub fn served_size(requested: Option<u64>, default: u64, max: u64) -> (r: u64)
    requires
        default > 0,
        max > 0,
        requested matches Some(v) ==> v > 0,
    ensures
        r == spec_served_size(requested, default, max),
        0 < r <= max,
{
    let n = match requested {
        Some(v) => v,
        None => default,
    };
    if n <= max {
        n
    } else {
        max
    }
}

/// The bytes `zstd`.
pub open spec fn zstd_token() -> Seq<u8> {
    seq![122u8, 115u8, 116u8, 100u8]
}

/// How a server answers a download request.
#[derive(PartialEq, Eq, Structural, Debug, Clone, Copy)]
pub enum Plan {
    /// Refuse the request with 400 Bad Request: the client accepts `zstd`,
    /// so a proxy in front would hand it the frame undecoded.
    RejectZstd,
    /// The request names no size in its query, and reading the size out of
    /// its path panics (see `PathPanic`): the handler gives no answer.
    PathPanics,
    /// Answer with the frame for this many zero bytes.
    Serve(u64),
}

/// How a server answers a request with this encoding header, query and path.
pub open spec fn spec_plan(
    encoding: Option<Seq<u8>>,
    query: Option<Seq<u8>>,
    path: Seq<char>,
    default: u64,
    max: u64,
) -> Plan {
    if encoding matches Some(e) && contains_subslice(e, zstd_token()) {
        Plan::RejectZstd
    } else {
        match spec_requested_size(query, path) {
            Err(_) => Plan::PathPanics,
            Ok(requested) => Plan::Serve(spec_served_size(requested, default, max)),
        }
    }
}

/// How a server answers a download request: refused when the encoding header
/// (the one the deployment checks) mentions `zstd`; otherwise served with
/// the requested size, `default` when none is named, capped at `max`;
/// `PathPanics` where the handler panics reading the path.
pub fn plan_request(
    encoding: Option<&[u8]>,
    query: Option<&str>,
    path: &str,
    default: u64,
    max: u64,
) -> (r: Plan)
    requires
        default > 0,
        max > 0,
    ensures
        r == spec_plan(
            match encoding {
                Some(e) => Some(e@),
                None => None,
            },
            query_bytes(query),
            path@,
            default,
            max,
        ),
        r matches Plan::Serve(n) ==> 0 < n <= max,
{
    let token: [u8; 4] = [122u8, 115u8, 116u8, 100u8];
    assert(token@ =~= zstd_token());
    if let Some(e) = encoding {
        if contains(e, &token) {
            return Plan::RejectZstd;
        }
    }
    match requested_size(query, path) {
        Err(_) => Plan::PathPanics,
        Ok(requested) => Plan::Serve(served_size(requested, default, max)),
    }
}

/// What a worker does with a request method.
#[derive(PartialEq, Eq, Structural, Debug, Clone, Copy)]
pub enum MethodAction {
    /// `GET`: build the payload.
    Serve,
    /// `HEAD`: answer 200 with no body.
    Head,
    /// Any other method: answer 405 Method Not Allowed.
    NotAllowed,
}

/// What a worker does with a method, compared in any ASCII case.
pub open spec fn spec_method_action(method: Seq<u8>) -> MethodAction {
    if spec_eq_ignore_ascii_case(method, seq![71u8, 69u8, 84u8]) {
        MethodAction::Serve
    } else if spec_eq_ignore_ascii_case(method, seq![72u8, 69u8, 65u8, 68u8]) {
        MethodAction::Head
    } else {
        MethodAction::NotAllowed
    }
}

/// What a worker does with the request method: `GET` is served, `HEAD` is
/// answered with 200 and no body, anything else with 405.
pub fn method_action(method: &str) -> (r: MethodAction)
    ensures
        r == spec_method_action(method.spec_bytes()),
{
    let get: [u8; 3] = [71u8, 69u8, 84u8];
    let head: [u8; 4] = [72u8, 69u8, 65u8, 68u8];
    assert(get@ =~= seq![71u8, 69u8, 84u8]);
    assert(head@ =~= seq![72u8, 69u8, 65u8, 68u8]);
    let m = method.as_bytes();
    if eq_ignore_ascii_case(m, &get) {
        MethodAction::Serve
    } else if eq_ignore_ascii_case(m, &head) {
        MethodAction::Head
    } else {
        MethodAction::NotAllowed
    }
}

/// The sizes whose responses a server builds once at start-up: 50, 100, 200,
/// 300 and 500 MiB, 1 GiB and 10 GiB.
pub open spec fn spec_precomputed_sizes() -> Seq<u64> {
    seq![52428800u64, 104857600u64, 209715200u64, 314572800u64, 524288000u64, 1073741824u64,
        10737418240u64]
}

/// The sizes whose responses a server builds once at start-up.
pub fn precomputed_sizes() -> (r: Vec<u64>)
    ensures
        r@ == spec_precomputed_sizes(),
{
    let mut v: Vec<u64> = Vec::new();
    v.push(50 * 1024 * 1024);
    v.push(100 * 1024 * 1024);
    v.push(200 * 1024 * 1024);
    v.push(300 * 1024 * 1024);
    v.push(500 * 1024 * 1024);
    v.push(1024 * 1024 * 1024);
    v.push(10 * 1024 * 1024 * 1024);
    assert(v@ =~= spec_precomputed_sizes());
    v
}


/// A server request: a size named in the query wins over the path, and a
/// query that names no size is read as no query at all, leaving the path to
/// decide; without a query the answer is `PathPanic` exactly where reading
/// the path panics, and the path's size otherwise.
pub proof fn lemma_requested_size_sources(q: Seq<u8>, path: Seq<char>)
    ensures
        spec_query_size(q) matches Some(n) ==> spec_requested_size(Some(q), path) == Ok::<Option<u64>, PathPanic>(Some(n)),
        spec_query_size(q) is None ==> spec_requested_size(Some(q), path) == spec_requested_size(
            None,
            path,
        ),
        spec_requested_size(None, path) == if path_size_panics(path, Seq::empty()) {
            Err::<Option<u64>, PathPanic>(PathPanic)
        } else {
            Ok(spec_path_size(path, Seq::empty()))
        },
{
}

/// A request to the cf-speedtest worker: a size named in the query wins
/// over the path, and a query that names no size is read as no query at
/// all, leaving the path after `/speedtest` to decide; without a query the
/// answer is `PathPanic` exactly where reading the path panics, and the
/// path's size otherwise.
pub proof fn lemma_keyed_requested_size_sources(q: Seq<u8>, path: Seq<char>)
    ensures
        spec_keyed_query_size(q) matches Some(n) ==> spec_keyed_requested_size(Some(q), path)
            == Ok::<Option<u64>, PathPanic>(Some(n)),
        spec_keyed_query_size(q) is None ==> spec_keyed_requested_size(Some(q), path)
            == spec_keyed_requested_size(None, path),
        spec_keyed_requested_size(None, path) == if path_size_panics(path, worker_route_prefix()) {
            Err::<Option<u64>, PathPanic>(PathPanic)
        } else {
            Ok(spec_path_size(path, worker_route_prefix()))
        },
{
}

/// A request to the tespeed worker: a size named in the query wins over the
/// path, and a query that names no size is read as no query at all, leaving
/// the path after `/speedtest` to decide; without a query the answer is
/// `PathPanic` exactly where reading the path panics, and the path's size
/// otherwise.
pub proof fn lemma_strict_requested_size_sources(q: Seq<u8>, path: Seq<char>)
    ensures
        spec_strict_query_size(q) matches Some(n) ==> spec_strict_requested_size(Some(q), path)
            == Ok::<Option<u64>, PathPanic>(Some(n)),
        spec_strict_query_size(q) is None ==> spec_strict_requested_size(Some(q), path)
            == spec_strict_requested_size(None, path),
        spec_strict_requested_size(None, path) == if path_size_panics(path, worker_route_prefix()) {
            Err::<Option<u64>, PathPanic>(PathPanic)
        } else {
            Ok(spec_path_size(path, worker_route_prefix()))
        },
{
}

/// Any encoding header that holds the bytes `zstd`, at whatever position, is
/// refused, whatever the query and path.
pub proof fn lemma_plan_rejects_zstd(
    e: Seq<u8>,
    i: int,
    query: Option<Seq<u8>>,
    path: Seq<char>,
    default: u64,
    max: u64,
)
    requires
        0 <= i,
        i + 4 <= e.len(),
        e.subrange(i, i + 4) == zstd_token(),
    ensures
        spec_plan(Some(e), query, path, default, max) == Plan::RejectZstd,
{
    assert(occurs_at(e, zstd_token(), i));
}

/// A header that nowhere holds `zstd` is answered as a request without the
/// header: never refused, and served with the requested size (`default`
/// when none, capped at `max`), or `PathPanics` where the path's reading
/// panics.
pub proof fn lemma_plan_without_zstd(
    e: Seq<u8>,
    query: Option<Seq<u8>>,
    path: Seq<char>,
    default: u64,
    max: u64,
)
    requires
        forall|i: int| 0 <= i && i + 4 <= e.len() ==> #[trigger] e.subrange(i, i + 4) != zstd_token(),
    ensures
        spec_plan(Some(e), query, path, default, max) == spec_plan(None, query, path, default, max),
        spec_plan(None, query, path, default, max) == match spec_requested_size(query, path) {
            Err(_) => Plan::PathPanics,
            Ok(requested) => Plan::Serve(spec_served_size(requested, default, max)),
        },
{
    assert forall|i: int| !occurs_at(e, zstd_token(), i) by {
        if occurs_at(e, zstd_token(), i) {
            assert(e.subrange(i, i + 4) == zstd_token());
        }
    }
}

/// `HEAD`, `GET` and the rest: a method is served only when it is `GET` in
/// any ASCII case, answered empty with 200 when it is `HEAD` in any ASCII
/// case, and refused with 405 otherwise.
pub proof fn lemma_method_action_cases(method: Seq<u8>)
    ensures
        spec_eq_ignore_ascii_case(method, seq![71u8, 69u8, 84u8]) <==> spec_method_action(method)
            == MethodAction::Serve,
        spec_eq_ignore_ascii_case(method, seq![72u8, 69u8, 65u8, 68u8]) <==> spec_method_action(
            method,
        ) == MethodAction::Head,
{
}

} // verus!
