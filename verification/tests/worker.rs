use cf_speedtest_core::worker::{keyed_worker_plan, strict_worker_request, WorkerPlan, WorkerRequest};

#[test]
fn keyed_worker_methods() {
    assert_eq!(keyed_worker_plan("HEAD", "https://example.com/speedtest", 10, 100), WorkerPlan::Head);
    assert_eq!(keyed_worker_plan("head", "not a url", 10, 100), WorkerPlan::Head);
    assert_eq!(keyed_worker_plan("POST", "https://example.com/", 10, 100), WorkerPlan::NotAllowed);
}

#[test]
fn keyed_worker_sizes() {
    assert_eq!(
        keyed_worker_plan("GET", "https://example.com/speedtest?bytes=5&bytes=7", 10, 100),
        WorkerPlan::Serve(7)
    );
    assert_eq!(
        keyed_worker_plan("GET", "https://example.com/speedtest/50B.test", 10, 100),
        WorkerPlan::Serve(50)
    );
    assert_eq!(
        keyed_worker_plan("GET", "https://example.com/speedtest/1KB", 10, 100),
        WorkerPlan::Serve(100)
    );
    assert_eq!(keyed_worker_plan("GET", "https://example.com/", 10, 100), WorkerPlan::Serve(10));
    assert_eq!(keyed_worker_plan("GET", "no scheme here", 10, 100), WorkerPlan::InvalidUrl);
    assert_eq!(
        keyed_worker_plan("GET", "https://example.com/speedtest/17179869184GiB", 10, 100),
        WorkerPlan::PathPanics
    );
}

#[test]
fn strict_worker_sizes() {
    assert_eq!(
        strict_worker_request("GET", "https://example.com/speedtest?BYTES=9=1"),
        WorkerRequest::Download(Some(9))
    );
    assert_eq!(
        strict_worker_request("GET", "https://example.com/speedtest/2MiB.test"),
        WorkerRequest::Download(Some(2 * 1024 * 1024))
    );
    assert_eq!(
        strict_worker_request("GET", "https://example.com/speedtest"),
        WorkerRequest::Download(None)
    );
    assert_eq!(strict_worker_request("OPTIONS", "https://example.com/"), WorkerRequest::NotAllowed);
    assert_eq!(strict_worker_request("GET", "::"), WorkerRequest::InvalidUrl);
    assert_eq!(
        strict_worker_request("GET", "https://example.com/speedtest/17179869184GiB"),
        WorkerRequest::PathPanics
    );
}
