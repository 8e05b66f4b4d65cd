//! The job driver: validation, admission, and finalization of jobs.
//!
//! Starting a job validates the request, applies the path-allowlist
//! policy, allocates a fresh identifier and registers a `Running` record;
//! the external tool then runs outside this crate, and its outcome is
//! folded back into the registry here: success carries the surfaced
//! artifacts, failure carries a diagnostic scanned from the logs and the
//! exit code, and a tool that could not be started at all fails the job
//! with no exit code.

use vstd::prelude::*;

use crate::config::Config;
use crate::config::PathResolution;
use crate::config::path_allowed;
use crate::error::XcbridgeError;
use crate::models::BuildRequest;
use crate::models::BuildStartedResponse;
use crate::models::BuildStatusResponse;
use crate::models::TestRequest;
use crate::observer::spec_status_name;
use crate::registry::BuildStatus;
use crate::registry::JobState;
use crate::registry::JobView;
use crate::registry::Registry;
use crate::registry::clone_lines;
use crate::registry::exit_code_view;
use crate::registry::reg_complete;
use crate::registry::job_state;
use crate::registry::reg_cancel;
use crate::registry::reg_create;
use crate::registry::reg_fail;
use crate::runner::BuildOutput;
use crate::runner::BuildParams;
use crate::runner::TestParams;
use crate::text::contains_seq;
use crate::text::str_contains;

verus! {

/// The kind of job being driven: it decides the failure markers scanned
/// for in the logs and whether artifacts are surfaced.
#[derive(Clone, Copy, Debug)]
pub enum JobKind {
    Build,
    Test,
}

/// Relies on uuid's `Uuid::new_v4` and its hyphenated rendering for a
/// fresh, collision-free job identifier; nothing is assumed of the
/// random value.
#[verifier::external_body]
fn fresh_job_id() -> (r: String) {
    uuid::Uuid::new_v4().to_string()
}

/// The path a job request asks to operate on: the project path, or the
/// workspace path when no project is given.
pub fn requested_path(project: &Option<String>, workspace: &Option<String>) -> (r: Option<String>)
    ensures
        r.deep_view() == (match *project {
            Some(p) => Some(p@),
            None => match *workspace {
                Some(w) => Some(w@),
                None => None::<Seq<char>>,
            },
        }),
{
    match project {
        Some(p) => Some(p.clone()),
        None => match workspace {
            Some(w) => Some(w.clone()),
            None => None,
        },
    }
}

fn missing_path_error() -> (r: XcbridgeError)
    ensures
        (match r {
            XcbridgeError::InvalidRequest(m) => m@
                == "Either project or workspace must be specified"@,
            _ => false,
        }),
{
    XcbridgeError::InvalidRequest("Either project or workspace must be specified".to_owned())
}

fn job_logs_url(prefix: &str, job_id: &String) -> (r: String)
    ensures
        r@ == prefix@ + job_id@ + "/logs"@,
{
    let mut r = prefix.to_owned();
    r.append(job_id.as_str());
    r.append("/logs");
    r
}

/// Starts a build job: validates that a project or workspace is named,
/// applies the path-allowlist policy to the resolved path, and only on
/// success registers a fresh `Running` record and hands back the started
/// response together with the runner's parameters. A rejected request
/// leaves the registry untouched.
pub fn start_build_job(
    reg: &mut Registry,
    config: &Config,
    req: BuildRequest,
    resolution: &PathResolution,
) -> (r: std::result::Result<(BuildStartedResponse, BuildParams), XcbridgeError>)
    ensures
        match r {
            Ok(pair) => {
                &&& req.project is Some || req.workspace is Some
                &&& path_allowed(*config, *resolution)
                &&& final(reg)@ == reg_create(old(reg)@, pair.0.build_id@)
                &&& pair.0.status@ == "running"@
                &&& pair.0.logs_url@ == "/build/"@ + pair.0.build_id@ + "/logs"@
                &&& pair.1.project == req.project
                &&& pair.1.workspace == req.workspace
                &&& pair.1.scheme == req.scheme
                &&& pair.1.configuration == req.configuration
                &&& pair.1.destination == req.destination
                &&& pair.1.derived_data_path == req.derived_data_path
                &&& pair.1.extra_args == req.extra_args
            },
            Err(e) => {
                &&& final(reg)@ == old(reg)@
                &&& match e {
                    XcbridgeError::InvalidRequest(m) => {
                        &&& req.project is None
                        &&& req.workspace is None
                        &&& m@ == "Either project or workspace must be specified"@
                    },
                    XcbridgeError::PathNotAllowed(p) => {
                        &&& (req.project is Some || req.workspace is Some)
                        &&& !path_allowed(*config, *resolution)
                        &&& Some(p@) == (match req.project {
                            Some(pp) => Some(pp@),
                            None => match req.workspace {
                                Some(w) => Some(w@),
                                None => None::<Seq<char>>,
                            },
                        })
                    },
                    _ => false,
                }
            },
        },
{
    let path = match requested_path(&req.project, &req.workspace) {
        Some(p) => p,
        None => {
            return Err(missing_path_error());
        },
    };
    if !config.is_path_allowed(resolution) {
        return Err(XcbridgeError::PathNotAllowed(path));
    }
    let build_id = fresh_job_id();
    reg.create_build(&build_id);
    let logs_url = job_logs_url("/build/", &build_id);
    let resp = BuildStartedResponse { build_id, status: "running".to_owned(), logs_url };
    let params = BuildParams {
        project: req.project,
        workspace: req.workspace,
        scheme: req.scheme,
        configuration: req.configuration,
        destination: req.destination,
        derived_data_path: req.derived_data_path,
        extra_args: req.extra_args,
    };
    Ok((resp, params))
}

/// Starts a test job; the same admission steps as for a build, with the
/// test runner's parameters.
pub fn start_test_job(
    reg: &mut Registry,
    config: &Config,
    req: TestRequest,
    resolution: &PathResolution,
) -> (r: std::result::Result<(BuildStartedResponse, TestParams), XcbridgeError>)
    ensures
        match r {
            Ok(pair) => {
                &&& req.project is Some || req.workspace is Some
                &&& path_allowed(*config, *resolution)
                &&& final(reg)@ == reg_create(old(reg)@, pair.0.build_id@)
                &&& pair.0.status@ == "running"@
                &&& pair.0.logs_url@ == "/test/"@ + pair.0.build_id@ + "/logs"@
                &&& pair.1.project == req.project
                &&& pair.1.workspace == req.workspace
                &&& pair.1.scheme == req.scheme
                &&& pair.1.destination == req.destination
                &&& pair.1.test_plan == req.test_plan
                &&& pair.1.only_testing == req.only_testing
                &&& pair.1.skip_testing == req.skip_testing
            },
            Err(e) => {
                &&& final(reg)@ == old(reg)@
                &&& match e {
                    XcbridgeError::InvalidRequest(m) => {
                        &&& req.project is None
                        &&& req.workspace is None
                        &&& m@ == "Either project or workspace must be specified"@
                    },
                    XcbridgeError::PathNotAllowed(p) => {
                        &&& (req.project is Some || req.workspace is Some)
                        &&& !path_allowed(*config, *resolution)
                        &&& Some(p@) == (match req.project {
                            Some(pp) => Some(pp@),
                            None => match req.workspace {
                                Some(w) => Some(w@),
                                None => None::<Seq<char>>,
                            },
                        })
                    },
                    _ => false,
                }
            },
        },
{
    let path = match requested_path(&req.project, &req.workspace) {
        Some(p) => p,
        None => {
            return Err(missing_path_error());
        },
    };
    if !config.is_path_allowed(resolution) {
        return Err(XcbridgeError::PathNotAllowed(path));
    }
    let test_id = fresh_job_id();
    reg.create_build(&test_id);
    let logs_url = job_logs_url("/test/", &test_id);
    let resp = BuildStartedResponse { build_id: test_id, status: "running".to_owned(), logs_url };
    let params = TestParams {
        project: req.project,
        workspace: req.workspace,
        scheme: req.scheme,
        destination: req.destination,
        test_plan: req.test_plan,
        only_testing: req.only_testing,
        skip_testing: req.skip_testing,
    };
    Ok((resp, params))
}

/// A line that counts as a failure marker for the given job kind.
pub open spec fn line_is_failure(kind: JobKind, line: Seq<char>) -> bool {
    match kind {
        JobKind::Build => contains_seq(line, "error:"@),
        JobKind::Test => contains_seq(line, "** TEST FAILED **"@) || contains_seq(
            line,
            "error:"@,
        ),
    }
}

/// The most recent failure-marker line of the logs, if any.
pub open spec fn last_failure_line(kind: JobKind, lines: Seq<Seq<char>>) -> Option<Seq<char>>
    decreases lines.len(),
{
    if lines.len() == 0 {
        None
    } else if line_is_failure(kind, lines.last()) {
        Some(lines.last())
    } else {
        last_failure_line(kind, lines.drop_last())
    }
}

/// The generic diagnostic used when no marker line is found.
pub open spec fn default_failure_message(kind: JobKind) -> Seq<char> {
    match kind {
        JobKind::Build => "Build failed"@,
        JobKind::Test => "Tests failed"@,
    }
}

/// The failure diagnostic extracted from the logs: the most recent marker
/// line, or the generic diagnostic when there is none.
pub open spec fn failure_summary(kind: JobKind, lines: Seq<Seq<char>>) -> Seq<char> {
    match last_failure_line(kind, lines) {
        Some(l) => l,
        None => default_failure_message(kind),
    }
}

/// Whether one line counts as a failure marker.
fn is_failure_line(kind: JobKind, line: &str) -> (r: bool)
    ensures
        r == line_is_failure(kind, line@),
{
    match kind {
        JobKind::Build => str_contains(line, "error:"),
        JobKind::Test => str_contains(line, "** TEST FAILED **") || str_contains(line, "error:"),
    }
}

/// Scans the logs backward for the most recent failure-marker line.
pub fn find_error_line(kind: JobKind, logs: &Vec<String>) -> (r: Option<String>)
    ensures
        r.deep_view() == last_failure_line(kind, logs.deep_view()),
{
    let ghost dv = logs.deep_view();
    let mut i: usize = logs.len();
    proof {
        assert(dv.take(dv.len() as int) =~= dv);
    }
    while i > 0
        invariant
            dv == logs.deep_view(),
            dv.len() == logs@.len(),
            0 <= i <= logs.len(),
            last_failure_line(kind, dv) == last_failure_line(kind, dv.take(i as int)),
        decreases i,
    {
        let j = i - 1;
        proof {
            assert(dv.take(i as int).last() == dv[j as int]);
            assert(dv.take(i as int).drop_last() =~= dv.take(j as int));
        }
        if is_failure_line(kind, logs[j].as_str()) {
            return Some(logs[j].clone());
        }
        i = j;
    }
    proof {
        assert(dv.take(0) =~= Seq::<Seq<char>>::empty());
    }
    None
}

/// The outcome the runner hands back for a job.
pub enum RunOutcome {
    /// The external tool ran to completion, successfully or not.
    Completed(BuildOutput),
    /// The external tool could not be started or communicated with; the
    /// message describes why.
    StartFailure(String),
}

/// The artifact list surfaced for a finished job: a build surfaces the
/// recorded artifact directory, a test run surfaces none.
pub open spec fn spec_artifacts(kind: JobKind, build_dir: Option<String>) -> Seq<Seq<char>> {
    match kind {
        JobKind::Build => match build_dir {
            Some(d) => seq![d@],
            None => Seq::empty(),
        },
        JobKind::Test => Seq::empty(),
    }
}

/// What finalizing a job does to the registry: success completes the
/// record with the surfaced artifacts; a failed run fails it with the
/// extracted diagnostic and the exit code; a tool that could not start
/// fails it with the startup message and no exit code.
pub open spec fn finish_transition(
    jobs: Seq<JobView>,
    id: Seq<char>,
    kind: JobKind,
    outcome: RunOutcome,
) -> Seq<JobView> {
    match outcome {
        RunOutcome::Completed(out) => {
            if out.success {
                reg_complete(jobs, id, spec_artifacts(kind, out.build_dir))
            } else {
                reg_fail(
                    jobs,
                    id,
                    failure_summary(kind, out.logs.deep_view()),
                    Some(out.exit_code as int),
                )
            }
        },
        RunOutcome::StartFailure(msg) => reg_fail(jobs, id, msg@, None),
    }
}

/// Finalizes a job record from the runner's outcome.
pub fn finish_job(reg: &mut Registry, job_id: &String, kind: JobKind, outcome: RunOutcome)
    ensures
        final(reg)@ == finish_transition(old(reg)@, job_id@, kind, outcome),
{
    match outcome {
        RunOutcome::Completed(out) => {
            if out.success {
                let ghost bd = out.build_dir;
                let mut artifacts: Vec<String> = Vec::new();
                match kind {
                    JobKind::Build => {
                        match out.build_dir {
                            Some(d) => {
                                artifacts.push(d);
                            },
                            None => {},
                        }
                    },
                    JobKind::Test => {},
                }
                proof {
                    assert(artifacts.deep_view() =~= spec_artifacts(kind, bd));
                }
                reg.complete_build(job_id, artifacts);
            } else {
                let error = match find_error_line(kind, &out.logs) {
                    Some(l) => l,
                    None => match kind {
                        JobKind::Build => "Build failed".to_owned(),
                        JobKind::Test => "Tests failed".to_owned(),
                    },
                };
                reg.fail_build(job_id, error, Some(out.exit_code));
            }
        },
        RunOutcome::StartFailure(msg) => {
            reg.fail_build(job_id, msg, None);
        },
    }
}

/// Looks a job up and assembles its status-query response; an unknown
/// identifier is reported as not found.
pub fn job_status_response(reg: &Registry, build_id: String) -> (r: std::result::Result<
    BuildStatusResponse,
    XcbridgeError,
>)
    ensures
        match r {
            Ok(resp) => {
                &&& job_state(reg@, build_id@) is Some
                &&& resp.build_id@ == build_id@
                &&& resp.status@ == (match job_state(reg@, build_id@) {
                    Some(st) => spec_status_name(st),
                    None => Seq::empty(),
                })
                &&& resp.logs.deep_view() == (match job_state(reg@, build_id@) {
                    Some(st) => st.logs(),
                    None => Seq::empty(),
                })
            },
            Err(e) => {
                &&& job_state(reg@, build_id@) is None
                &&& (match e {
                    XcbridgeError::BuildNotFound(m) => m@ == build_id@,
                    _ => false,
                })
            },
        },
{
    match reg.get_build(&build_id) {
        Some(status) => Ok(build_status_response(build_id, &status)),
        None => Err(XcbridgeError::BuildNotFound(build_id)),
    }
}

/// Cancels a job: a `Running` record is replaced by `Cancelled` and the
/// cancelled-shaped response is returned; an absent or already terminal
/// record is reported as not found and left as it stands.
pub fn cancel_job(reg: &mut Registry, build_id: String) -> (r: std::result::Result<
    BuildStatusResponse,
    XcbridgeError,
>)
    ensures
        final(reg)@ == reg_cancel(old(reg)@, build_id@),
        match r {
            Ok(resp) => {
                &&& (match job_state(old(reg)@, build_id@) {
                    Some(st) => st is Running,
                    None => false,
                })
                &&& resp.build_id@ == build_id@
                &&& resp.status@ == "cancelled"@
                &&& resp.exit_code is None
                &&& resp.artifacts is None
                &&& resp.error is None
                &&& resp.logs@.len() == 0
            },
            Err(e) => {
                &&& (match job_state(old(reg)@, build_id@) {
                    Some(st) => st.is_terminal(),
                    None => true,
                })
                &&& (match e {
                    XcbridgeError::BuildNotFound(m) => m@ == build_id@,
                    _ => false,
                })
            },
        },
{
    let cancelled = reg.cancel_build(&build_id);
    if !cancelled {
        return Err(XcbridgeError::BuildNotFound(build_id));
    }
    Ok(
        BuildStatusResponse {
            build_id,
            status: "cancelled".to_owned(),
            exit_code: None,
            artifacts: None,
            error: None,
            logs: Vec::new(),
        },
    )
}

/// Assembles the status-query response for a job record: the status name,
/// the logs, and — once terminal — the exit code, artifacts or error that
/// the record carries.
pub fn build_status_response(build_id: String, status: &BuildStatus) -> (r: BuildStatusResponse)
    ensures
        r.build_id@ == build_id@,
        r.status@ == spec_status_name(status@),
        r.logs.deep_view() == status@.logs(),
        match status@ {
            JobState::Running { .. } => {
                r.exit_code is None && r.artifacts is None && r.error is None
            },
            JobState::Success { artifacts, .. } => {
                &&& r.exit_code == Some(0i32)
                &&& match r.artifacts {
                    Some(a) => a.deep_view() == artifacts,
                    None => false,
                }
                &&& r.error is None
            },
            JobState::Failed { error, exit_code, .. } => {
                &&& exit_code_view(r.exit_code) == exit_code
                &&& r.artifacts is None
                &&& match r.error {
                    Some(e) => e@ == error,
                    None => false,
                }
            },
            JobState::Cancelled => {
                r.exit_code is None && r.artifacts is None && r.error is None
            },
        },
{
    match status {
        BuildStatus::Running { logs } => BuildStatusResponse {
            build_id,
            status: "running".to_owned(),
            exit_code: None,
            artifacts: None,
            error: None,
            logs: clone_lines(logs),
        },
        BuildStatus::Success { logs, artifacts } => BuildStatusResponse {
            build_id,
            status: "success".to_owned(),
            exit_code: Some(0),
            artifacts: Some(clone_lines(artifacts)),
            error: None,
            logs: clone_lines(logs),
        },
        BuildStatus::Failed { logs, error, exit_code } => BuildStatusResponse {
            build_id,
            status: "failed".to_owned(),
            exit_code: *exit_code,
            artifacts: None,
            error: Some(error.clone()),
            logs: clone_lines(logs),
        },
        BuildStatus::Cancelled => {
            let r = BuildStatusResponse {
                build_id,
                status: "cancelled".to_owned(),
                exit_code: None,
                artifacts: None,
                error: None,
                logs: Vec::new(),
            };
            proof {
                assert(r.logs.deep_view() =~= status@.logs());
            }
            r
        },
    }
}

} // verus!
