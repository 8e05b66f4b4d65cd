use xcbridge::config::Config;
use xcbridge::config::PathResolution;
use xcbridge::driver::JobKind;
use xcbridge::driver::RunOutcome;
use xcbridge::driver::cancel_job;
use xcbridge::driver::find_error_line;
use xcbridge::driver::finish_job;
use xcbridge::driver::job_status_response;
use xcbridge::driver::requested_path;
use xcbridge::driver::start_build_job;
use xcbridge::driver::start_test_job;
use xcbridge::error::XcbridgeError;
use xcbridge::models::BuildRequest;
use xcbridge::models::TestRequest;
use xcbridge::registry::Registry;
use xcbridge::runner::BuildOutput;
use xcbridge::runner::RunnerState;

fn s(text: &str) -> String {
    text.to_string()
}

fn allowlisted_config() -> Config {
    Config {
        port: 9090,
        host: s("127.0.0.1"),
        api_key: None,
        log_level: s("info"),
        allowed_paths: Some(vec![s("/allowed")]),
    }
}

fn build_request(project: &str) -> BuildRequest {
    BuildRequest {
        project: Some(s(project)),
        workspace: None,
        scheme: s("App"),
        configuration: s("Debug"),
        destination: None,
        derived_data_path: None,
        extra_args: vec![],
    }
}

fn allowed_resolution(canonical: &str) -> PathResolution {
    PathResolution { canonical: Some(s(canonical)), canonical_roots: vec![Some(s("/allowed"))] }
}

#[test]
fn successful_build_end_to_end() {
    let mut reg = Registry::new();
    let config = allowlisted_config();
    let req = build_request("/allowed/App.xcodeproj");
    let resolution = allowed_resolution("/allowed/App.xcodeproj");

    let (resp, params) = start_build_job(&mut reg, &config, req, &resolution).unwrap();
    assert_eq!(resp.status, s("running"));
    assert!(!resp.build_id.is_empty());
    assert_eq!(resp.logs_url, format!("/build/{}/logs", resp.build_id));
    assert_eq!(params.scheme, s("App"));

    // The record is immediately visible as running.
    let status = job_status_response(&reg, resp.build_id.clone()).unwrap();
    assert_eq!(status.status, s("running"));

    // The external tool streams two lines, one carrying the artifact
    // marker, and exits successfully.
    let mut runner = RunnerState::new();
    runner.observe_line(s("Compiling main.swift"));
    reg.append_build_log(&resp.build_id, s("Compiling main.swift"));
    runner.observe_line(s("    BUILD_DIR = /allowed/build/Debug"));
    reg.append_build_log(&resp.build_id, s("    BUILD_DIR = /allowed/build/Debug"));
    let output = runner.finish(true, 0);
    finish_job(&mut reg, &resp.build_id, JobKind::Build, RunOutcome::Completed(output));

    let status = job_status_response(&reg, resp.build_id.clone()).unwrap();
    assert_eq!(status.status, s("success"));
    assert_eq!(status.exit_code, Some(0));
    assert_eq!(status.artifacts, Some(vec![s("/allowed/build/Debug")]));
    assert_eq!(status.error, None);
    assert_eq!(
        status.logs,
        vec![s("Compiling main.swift"), s("    BUILD_DIR = /allowed/build/Debug")]
    );
}

#[test]
fn failing_build_reports_marker_line_and_exit_code() {
    let mut reg = Registry::new();
    let config = allowlisted_config();
    let req = build_request("/allowed/App.xcodeproj");
    let resolution = allowed_resolution("/allowed/App.xcodeproj");

    let (resp, _params) = start_build_job(&mut reg, &config, req, &resolution).unwrap();

    let mut runner = RunnerState::new();
    for line in ["Compiling main.swift", "main.swift:3:1: error: use of unresolved identifier", "build halted"] {
        runner.observe_line(s(line));
        reg.append_build_log(&resp.build_id, s(line));
    }
    let output = runner.finish(false, 65);
    finish_job(&mut reg, &resp.build_id, JobKind::Build, RunOutcome::Completed(output));

    let status = job_status_response(&reg, resp.build_id.clone()).unwrap();
    assert_eq!(status.status, s("failed"));
    assert_eq!(status.exit_code, Some(65));
    assert_eq!(status.error, Some(s("main.swift:3:1: error: use of unresolved identifier")));
    assert_eq!(status.artifacts, None);
    assert_eq!(status.logs.len(), 3);
}

#[test]
fn cancelled_job_reports_cancelled_and_second_cancel_is_not_found() {
    let mut reg = Registry::new();
    let config = allowlisted_config();
    let req = build_request("/allowed/App.xcodeproj");
    let resolution = allowed_resolution("/allowed/App.xcodeproj");

    let (resp, _params) = start_build_job(&mut reg, &config, req, &resolution).unwrap();

    let cancelled = cancel_job(&mut reg, resp.build_id.clone()).unwrap();
    assert_eq!(cancelled.status, s("cancelled"));
    assert!(cancelled.logs.is_empty());

    let status = job_status_response(&reg, resp.build_id.clone()).unwrap();
    assert_eq!(status.status, s("cancelled"));

    match cancel_job(&mut reg, resp.build_id.clone()) {
        Err(XcbridgeError::BuildNotFound(id)) => assert_eq!(id, resp.build_id),
        _ => panic!("a second cancellation must report not found"),
    }
}

#[test]
fn rejected_path_creates_no_record() {
    let mut reg = Registry::new();
    let config = allowlisted_config();
    let req = build_request("/outside/App.xcodeproj");
    let resolution = PathResolution {
        canonical: Some(s("/outside/App.xcodeproj")),
        canonical_roots: vec![Some(s("/allowed"))],
    };

    match start_build_job(&mut reg, &config, req, &resolution) {
        Err(XcbridgeError::PathNotAllowed(p)) => assert_eq!(p, s("/outside/App.xcodeproj")),
        _ => panic!("a path outside every root must be rejected"),
    }

    // Nothing was created: any status query reports not found.
    match job_status_response(&reg, s("any-id")) {
        Err(XcbridgeError::BuildNotFound(id)) => assert_eq!(id, s("any-id")),
        _ => panic!("no record may exist after a rejected start"),
    }
}

#[test]
fn request_without_project_or_workspace_is_invalid() {
    let mut reg = Registry::new();
    let config = allowlisted_config();
    let mut req = build_request("/allowed/App.xcodeproj");
    req.project = None;
    let resolution = allowed_resolution("/allowed/App.xcodeproj");
    match start_build_job(&mut reg, &config, req, &resolution) {
        Err(XcbridgeError::InvalidRequest(m)) => {
            assert_eq!(m, s("Either project or workspace must be specified"));
        }
        _ => panic!("a request naming no path must be invalid"),
    }
}

#[test]
fn startup_failure_fails_the_job_without_exit_code() {
    let mut reg = Registry::new();
    let config = allowlisted_config();
    let req = build_request("/allowed/App.xcodeproj");
    let resolution = allowed_resolution("/allowed/App.xcodeproj");
    let (resp, _params) = start_build_job(&mut reg, &config, req, &resolution).unwrap();

    finish_job(
        &mut reg,
        &resp.build_id,
        JobKind::Build,
        RunOutcome::StartFailure(s("Failed to spawn xcodebuild: not found")),
    );

    let status = job_status_response(&reg, resp.build_id.clone()).unwrap();
    assert_eq!(status.status, s("failed"));
    assert_eq!(status.exit_code, None);
    assert_eq!(status.error, Some(s("Failed to spawn xcodebuild: not found")));
}

#[test]
fn failed_test_run_uses_test_markers_and_generic_fallback() {
    let mut reg = Registry::new();
    let config = allowlisted_config();
    let req = TestRequest {
        project: None,
        workspace: Some(s("/allowed/App.xcworkspace")),
        scheme: s("AppTests"),
        destination: None,
        test_plan: None,
        only_testing: vec![],
        skip_testing: vec![],
    };
    let resolution = allowed_resolution("/allowed/App.xcworkspace");
    let (resp, params) = start_test_job(&mut reg, &config, req, &resolution).unwrap();
    assert_eq!(resp.logs_url, format!("/test/{}/logs", resp.build_id));
    assert_eq!(params.scheme, s("AppTests"));

    // No marker line at all: the generic diagnostic is used.
    let output = BuildOutput { success: false, exit_code: 1, logs: vec![s("quiet")], build_dir: None };
    finish_job(&mut reg, &resp.build_id, JobKind::Test, RunOutcome::Completed(output));
    let status = job_status_response(&reg, resp.build_id.clone()).unwrap();
    assert_eq!(status.error, Some(s("Tests failed")));
}

#[test]
fn test_runs_surface_no_artifacts() {
    let mut reg = Registry::new();
    let config = allowlisted_config();
    let req = TestRequest {
        project: Some(s("/allowed/App.xcodeproj")),
        workspace: None,
        scheme: s("AppTests"),
        destination: None,
        test_plan: None,
        only_testing: vec![],
        skip_testing: vec![],
    };
    let resolution = allowed_resolution("/allowed/App.xcodeproj");
    let (resp, _params) = start_test_job(&mut reg, &config, req, &resolution).unwrap();
    let output = BuildOutput {
        success: true,
        exit_code: 0,
        logs: vec![],
        build_dir: Some(s("/allowed/build")),
    };
    finish_job(&mut reg, &resp.build_id, JobKind::Test, RunOutcome::Completed(output));
    let status = job_status_response(&reg, resp.build_id.clone()).unwrap();
    assert_eq!(status.status, s("success"));
    assert_eq!(status.artifacts, Some(vec![]));
}

#[test]
fn find_error_line_picks_the_most_recent_marker() {
    let logs = vec![
        s("error: first"),
        s("note: fine"),
        s("error: second"),
        s("all done"),
    ];
    assert_eq!(find_error_line(JobKind::Build, &logs), Some(s("error: second")));
    assert_eq!(find_error_line(JobKind::Build, &vec![s("clean")]), None);
}

#[test]
fn test_kind_also_accepts_test_failed_marker() {
    let logs = vec![s("running"), s("** TEST FAILED **")];
    assert_eq!(find_error_line(JobKind::Test, &logs), Some(s("** TEST FAILED **")));
    assert_eq!(find_error_line(JobKind::Build, &logs), None);
}

#[test]
fn requested_path_prefers_the_project() {
    assert_eq!(
        requested_path(&Some(s("/p")), &Some(s("/w"))),
        Some(s("/p"))
    );
    assert_eq!(requested_path(&None, &Some(s("/w"))), Some(s("/w")));
    assert_eq!(requested_path(&None, &None), None);
}

#[test]
fn error_rendering_matches_the_taxonomy() {
    let e = XcbridgeError::PathNotAllowed(s("/x"));
    assert_eq!(e.message(), s("Path not allowed: /x"));
    assert_eq!(e.error_kind(), s("path_not_allowed"));
    assert_eq!(e.http_status(), 403);

    let e = XcbridgeError::XcodeNotFound;
    assert_eq!(
        e.message(),
        s("Xcode not found. Please install Xcode and run xcode-select.")
    );
    assert_eq!(e.error_kind(), s("xcode_not_found"));
    assert_eq!(e.http_status(), 503);

    let e = XcbridgeError::BuildNotFound(s("id-1"));
    assert_eq!(e.message(), s("Build not found: id-1"));
    assert_eq!(e.http_status(), 404);

    let e = XcbridgeError::InvalidRequest(s("bad"));
    assert_eq!(e.message(), s("Invalid request: bad"));
    assert_eq!(e.http_status(), 400);

    let e = XcbridgeError::Unauthorized;
    assert_eq!(e.message(), s("Unauthorized"));
    assert_eq!(e.error_kind(), s("unauthorized"));
    assert_eq!(e.http_status(), 401);

    let e = XcbridgeError::CommandFailed(s("spawn"));
    assert_eq!(e.message(), s("Command execution failed: spawn"));
    assert_eq!(e.http_status(), 500);
}
