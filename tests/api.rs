use symbolicator::api::{
    choose_sources, error_status, parse_request_id, part_role, poll_status, require_artifact, ApiErrorResponse, PartRole,
    SymbolicateParams,
};
use symbolicator::broker::{JobKind, JobResult, PollOutcome, RequestId};
use symbolicator::healthcheck;
use symbolicator::objects::{SourceConfig, SourceKind};
use symbolicator::types::ErrorKind;

#[test]
fn healthcheck_says_ok() {
    assert_eq!(healthcheck(), "ok");
}

#[test]
fn error_response_with_detail() {
    let e = ApiErrorResponse::with_detail("missing minidump");
    assert_eq!(e.detail().map(|s| s.as_str()), Some("missing minidump"));
    assert!(e.causes().is_none());
}

#[test]
fn poll_statuses() {
    assert_eq!(poll_status(&PollOutcome::Ready(JobResult::Completed(vec![]))), 200);
    assert_eq!(poll_status(&PollOutcome::Ready(JobResult::Failed(ErrorKind::BackendUnavailable))), 200);
    assert_eq!(poll_status(&PollOutcome::StillRunning), 503);
    assert_eq!(poll_status(&PollOutcome::Unknown), 404);
    assert_eq!(error_status(ErrorKind::Overloaded), 503);
    assert_eq!(error_status(ErrorKind::MalformedInput), 400);
    assert_eq!(error_status(ErrorKind::NotFound), 404);
    assert_eq!(error_status(ErrorKind::BackendUnavailable), 502);
    assert_eq!(error_status(ErrorKind::StillProcessing), 503);
}

#[test]
fn form_fields() {
    assert_eq!(part_role("upload_file_minidump", JobKind::Minidump), PartRole::Artifact);
    assert_eq!(part_role("upload_file_minidump", JobKind::AppleCrashReport), PartRole::Ignored);
    assert_eq!(part_role("apple_crash_report", JobKind::AppleCrashReport), PartRole::Artifact);
    assert_eq!(part_role("sources", JobKind::Minidump), PartRole::Sources);
    assert_eq!(part_role("options", JobKind::AppleCrashReport), PartRole::Options);
    assert_eq!(part_role("unknown", JobKind::Minidump), PartRole::Ignored);
    assert_eq!(require_artifact(None), Err(ErrorKind::MalformedInput));
    assert_eq!(require_artifact(Some(vec![1])), Ok(vec![1]));
}

#[test]
fn default_sources_when_none_given() {
    let d = vec![SourceConfig { id: "default".to_string(), kind: SourceKind::Http, location: "x".to_string() }];
    assert_eq!(choose_sources(None, d.clone())[0].id, "default");
    assert!(choose_sources(Some(vec![]), d).is_empty());
}

#[test]
fn request_id_text_form() {
    assert_eq!(parse_request_id("0").unwrap().value, 0);
    assert_eq!(parse_request_id("42").unwrap().value, 42);
    assert_eq!(parse_request_id("18446744073709551615").unwrap().value, u64::MAX);
    assert!(parse_request_id("18446744073709551616").is_none());
    assert!(parse_request_id("").is_none());
    assert!(parse_request_id("12a").is_none());
    assert!(parse_request_id("-1").is_none());
}

#[test]
fn params_default_to_global_without_timeout() {
    let p = SymbolicateParams::new();
    assert!(p.timeout.is_none());
}

#[test]
fn request_id_text_round_trip() {
    assert_eq!(RequestId { value: 907 }.to_text(), "907");
    assert_eq!(RequestId { value: 0 }.to_text(), "0");
    for v in [0u64, 9, 10, 12345, u64::MAX] {
        let id = RequestId { value: v };
        assert_eq!(parse_request_id(&id.to_text()), Some(id));
    }
}
