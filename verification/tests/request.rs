use cf_speedtest_core::path::{path_panics, path_size, size_from_split, split_overflows_at, worker_path_size};
use cf_speedtest_core::query::{keyed_query_size, query_size, strict_query_size};
use cf_speedtest_core::request::{
    PathPanic, keyed_requested_size, method_action, plan_request, precomputed_sizes, requested_size,
    served_size, strict_requested_size, MethodAction, Plan,
};
use cf_speedtest_core::text::{eq_ignore_ascii_case, parse_u64};

#[test]
fn parse_u64_agrees_with_std() {
    for s in ["0", "1", "+7", "007", "18446744073709551615", "18446744073709551616", "", "+", "-1",
        "1a", " 1", "12 ", "99999999999999999999", "+0", "++1"]
    {
        assert_eq!(parse_u64(s.as_bytes()), s.parse::<u64>().ok(), "{s:?}");
    }
}

#[test]
fn eq_ignore_ascii_case_agrees_with_std() {
    for (a, b) in [("bytes", "BYTES"), ("Bytes", "bytes"), ("byte", "bytes"), ("KiB", "kib"),
        ("é", "É"), ("", "")]
    {
        assert_eq!(eq_ignore_ascii_case(a.as_bytes(), b.as_bytes()), a.eq_ignore_ascii_case(b));
    }
}

#[test]
fn query_takes_first_valid_bytes_pair() {
    assert_eq!(query_size("bytes=100"), Some(100));
    assert_eq!(query_size("BYTES=5&bytes=6"), Some(5));
    assert_eq!(query_size("a=1&bytes=abc&ByTeS=42"), Some(42));
    assert_eq!(query_size("bytes=0"), None);
    assert_eq!(query_size("bytes"), None);
    assert_eq!(query_size("bytes=5=6"), None);
    assert_eq!(query_size(""), None);
    assert_eq!(query_size("x=1&&bytes=+9"), Some(9));
}

#[test]
fn strict_query_ends_value_at_next_equals() {
    assert_eq!(strict_query_size("bytes=5=6"), Some(5));
    assert_eq!(strict_query_size("bytes&bytes=7"), Some(7));
    assert_eq!(strict_query_size("BYTES=8"), Some(8));
    assert_eq!(strict_query_size("bytes=x"), None);
}

#[test]
fn keyed_query_keeps_last_exact_key() {
    assert_eq!(keyed_query_size("bytes=5&bytes=6"), Some(6));
    assert_eq!(keyed_query_size("bytes=5&bytes=x"), None);
    assert_eq!(keyed_query_size("BYTES=5"), None);
    assert_eq!(keyed_query_size("bytes=5&bytes"), None);
    assert_eq!(keyed_query_size("bytes=9=1"), Some(9));
}

#[test]
fn path_units() {
    assert_eq!(path_size("/100MB.test"), Some(100_000_000));
    assert_eq!(path_size("/100mib"), Some(100 * 1024 * 1024));
    assert_eq!(path_size("/5"), Some(5));
    assert_eq!(path_size("/5b"), Some(5));
    assert_eq!(path_size("/2KB"), Some(2000));
    assert_eq!(path_size("/2kIb"), Some(2048));
    assert_eq!(path_size("/3GB.test.test"), Some(3_000_000_000));
    assert_eq!(path_size("/1GiB"), Some(1 << 30));
    assert_eq!(path_size("//7KB"), Some(7000));
    assert_eq!(path_size("/speedtest"), None);
    assert_eq!(path_size("/10TB"), None);
    assert_eq!(path_size("/0MB"), None);
    assert_eq!(path_size("/a1"), None);
    assert_eq!(path_size(""), None);
}

#[test]
fn path_product_overflow_panics() {
    // 2^34 GiB is 2^64: the multiplication overflows.
    assert!(path_panics("/17179869184GiB"));
    assert_eq!(requested_size(None, "/17179869184GiB"), Err(PathPanic));
    assert_eq!(plan_request(None, None, "/17179869184GiB", 10, 100), Plan::PathPanics);
    assert!(!path_panics("/17179869183GiB"));
    assert_eq!(path_size("/17179869183GiB"), Some(17179869183 << 30));
    assert!(split_overflows_at("17179869184GiB", 10));
    assert!(!split_overflows_at("17179869183GiB", 10));
    // A query that names a size means the path is never read.
    assert_eq!(requested_size(Some("bytes=3"), "/17179869184GiB"), Ok(Some(3)));
}

#[test]
fn worker_path_drops_route_prefix() {
    assert_eq!(worker_path_size("/speedtest/100MB.test"), Some(100_000_000));
    assert_eq!(worker_path_size("/speedtest/speedtest/1KB"), Some(1000));
    assert_eq!(worker_path_size("/5"), Some(5));
}

#[test]
fn path_with_multibyte_last_digit() {
    // The last numeric character is two bytes long.
    assert!(path_panics("/5\u{b2}"));
    assert!(!path_panics("/5MB"));
    assert_eq!(requested_size(None, "/5\u{b2}"), Err(PathPanic));
    assert_eq!(plan_request(None, None, "/5\u{b2}", 10, 100), Plan::PathPanics);
    // The zstd refusal comes first.
    assert_eq!(plan_request(Some(b"zstd"), None, "/5\u{b2}", 10, 100), Plan::RejectZstd);
    // A non-numeric multi-byte character after the number refuses the unit.
    assert!(!path_panics("/5\u{e9}"));
    assert_eq!(path_size("/5\u{e9}"), None);
}

#[test]
fn query_wins_over_path() {
    assert_eq!(requested_size(Some("bytes=10"), "/100MB"), Ok(Some(10)));
    assert_eq!(requested_size(Some("other=1"), "/100MB"), Ok(Some(100_000_000)));
    assert_eq!(requested_size(None, "/"), Ok(None));
    assert_eq!(keyed_requested_size(Some("bytes=3"), "/speedtest/1KB"), Ok(Some(3)));
    assert_eq!(keyed_requested_size(None, "/speedtest/1KB"), Ok(Some(1000)));
    assert_eq!(strict_requested_size(Some("bytes=4=x"), "/speedtest/1KB"), Ok(Some(4)));
}

#[test]
fn served_size_defaults_and_caps() {
    assert_eq!(served_size(None, 10, 100), 10);
    assert_eq!(served_size(Some(50), 10, 100), 50);
    assert_eq!(served_size(Some(500), 10, 100), 100);
    assert_eq!(served_size(None, 1000, 100), 100);
}

#[test]
fn plan_rejects_zstd_encoding() {
    assert_eq!(plan_request(Some(b"gzip, zstd"), None, "/1KB", 10, 100), Plan::RejectZstd);
    assert_eq!(plan_request(Some(b"gzip, br"), None, "/50", 10, 100), Plan::Serve(50));
    assert_eq!(plan_request(None, Some("bytes=1000"), "/", 10, 100), Plan::Serve(100));
    assert_eq!(plan_request(None, None, "/", 10, 100), Plan::Serve(10));
}

#[test]
fn method_filter() {
    assert_eq!(method_action("GET"), MethodAction::Serve);
    assert_eq!(method_action("get"), MethodAction::Serve);
    assert_eq!(method_action("HEAD"), MethodAction::Head);
    assert_eq!(method_action("POST"), MethodAction::NotAllowed);
}

#[test]
fn precomputed_size_list() {
    let mib = 1024 * 1024;
    assert_eq!(
        precomputed_sizes(),
        vec![50 * mib, 100 * mib, 200 * mib, 300 * mib, 500 * mib, 1024 * mib, 10 * 1024 * mib]
    );
}

#[test]
fn size_from_a_split_text() {
    assert_eq!(size_from_split("100MB", 2), Some(100_000_000));
    assert_eq!(size_from_split("100MB", 1), None);
    assert_eq!(size_from_split("7", 0), Some(7));
    assert_eq!(size_from_split("7kib", 0), Some(7168));
}
