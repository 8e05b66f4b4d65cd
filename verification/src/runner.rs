//! The line-streaming process runner's verified half: translating build and
//! test parameters into the external tool's argument list, and folding the
//! streamed output lines into the runner's state — the accumulated log and
//! the produced-artifact directory announced by a structured marker line.
//!
//! Spawning the external process and draining its two output streams is
//! input/output and lives outside this crate; each drained line is handed
//! to [`RunnerState::observe_line`], and the process exit is folded in by
//! [`RunnerState::finish`].

use vstd::prelude::*;

use crate::text::contains_seq;
use crate::text::find_sub;
use crate::text::first_occurrence;
use crate::text::lemma_first_occurrence_at;
use crate::text::lines_of;
use crate::text::split_lines;
use crate::text::trim_str;
use crate::text::trimmed;

verus! {

/// Parameters of a build operation.
pub struct BuildParams {
    pub project: Option<String>,
    pub workspace: Option<String>,
    pub scheme: String,
    pub configuration: String,
    pub destination: Option<String>,
    pub derived_data_path: Option<String>,
    pub extra_args: Vec<String>,
}

/// Parameters of a test operation.
pub struct TestParams {
    pub project: Option<String>,
    pub workspace: Option<String>,
    pub scheme: String,
    pub destination: Option<String>,
    pub test_plan: Option<String>,
    pub only_testing: Vec<String>,
    pub skip_testing: Vec<String>,
}

/// A flag with its value, or nothing for an absent option.
pub open spec fn opt_arg(flag: Seq<char>, v: Option<String>) -> Seq<Seq<char>> {
    match v {
        Some(s) => seq![flag, s@],
        None => Seq::empty(),
    }
}

/// A flag repeated before each item, in order.
pub open spec fn repeated_arg(flag: Seq<char>, items: Seq<Seq<char>>) -> Seq<Seq<char>>
    decreases items.len(),
{
    if items.len() == 0 {
        Seq::empty()
    } else {
        repeated_arg(flag, items.drop_last()) + seq![flag, items.last()]
    }
}

/// The external tool's argument list for a build.
pub open spec fn build_args(p: BuildParams) -> Seq<Seq<char>> {
    opt_arg("-project"@, p.project) + opt_arg("-workspace"@, p.workspace) + seq![
        "-scheme"@,
        p.scheme@,
        "-configuration"@,
        p.configuration@,
    ] + opt_arg("-destination"@, p.destination) + opt_arg("-derivedDataPath"@, p.derived_data_path)
        + p.extra_args.deep_view()
}

/// The external tool's argument list for a test run.
pub open spec fn test_args(p: TestParams) -> Seq<Seq<char>> {
    seq!["test"@] + opt_arg("-project"@, p.project) + opt_arg("-workspace"@, p.workspace) + seq![
        "-scheme"@,
        p.scheme@,
    ] + opt_arg("-destination"@, p.destination) + opt_arg("-testPlan"@, p.test_plan)
        + repeated_arg("-only-testing"@, p.only_testing.deep_view()) + repeated_arg(
        "-skip-testing"@,
        p.skip_testing.deep_view(),
    )
}

/// Pushes one borrowed argument.
fn push_arg(args: &mut Vec<String>, a: &str)
    ensures
        final(args).deep_view() == old(args).deep_view().push(a@),
{
    args.push(a.to_owned());
    proof {
        assert(args.deep_view() =~= old(args).deep_view().push(a@));
    }
}

/// Pushes a copy of one argument.
fn push_arg_string(args: &mut Vec<String>, a: &String)
    ensures
        final(args).deep_view() == old(args).deep_view().push(a@),
{
    args.push(a.clone());
    proof {
        assert(args.deep_view() =~= old(args).deep_view().push(a@));
    }
}

/// Pushes a flag and the value of a present option.
fn push_opt_arg(args: &mut Vec<String>, flag: &str, v: &Option<String>)
    ensures
        final(args).deep_view() == old(args).deep_view() + opt_arg(flag@, *v),
{
    match v {
        Some(s) => {
            push_arg(args, flag);
            push_arg_string(args, s);
        },
        None => {},
    }
    proof {
        assert(args.deep_view() =~= old(args).deep_view() + opt_arg(flag@, *v));
    }
}

/// Pushes a flag before each item of a list.
fn push_repeated_arg(args: &mut Vec<String>, flag: &str, items: &Vec<String>)
    ensures
        final(args).deep_view() == old(args).deep_view() + repeated_arg(
            flag@,
            items.deep_view(),
        ),
{
    proof {
        assert(items.deep_view().take(0) =~= Seq::<Seq<char>>::empty());
        assert(args.deep_view() =~= args.deep_view() + repeated_arg(
            flag@,
            items.deep_view().take(0),
        ));
    }
    let mut i: usize = 0;
    while i < items.len()
        invariant
            0 <= i <= items.len(),
            items@.len() == items.deep_view().len(),
            args.deep_view() == old(args).deep_view() + repeated_arg(
                flag@,
                items.deep_view().take(i as int),
            ),
        decreases items.len() - i,
    {
        push_arg(args, flag);
        push_arg_string(args, &items[i]);
        proof {
            let dv = items.deep_view();
            assert(dv.take(i as int + 1).drop_last() =~= dv.take(i as int));
            assert(dv.take(i as int + 1).last() == dv[i as int]);
            assert(repeated_arg(flag@, dv.take(i as int + 1)) == repeated_arg(
                flag@,
                dv.take(i as int),
            ) + seq![flag@, dv[i as int]]);
            assert(args.deep_view() =~= old(args).deep_view() + repeated_arg(
                flag@,
                dv.take(i as int + 1),
            ));
        }
        i = i + 1;
    }
    proof {
        assert(items.deep_view().take(items.deep_view().len() as int) =~= items.deep_view());
    }
}

impl BuildParams {
    /// The argument list handed to the external tool for this build.
    pub fn to_args(&self) -> (args: Vec<String>)
        ensures
            args.deep_view() == build_args(*self),
    {
        let mut args: Vec<String> = Vec::new();
        push_opt_arg(&mut args, "-project", &self.project);
        push_opt_arg(&mut args, "-workspace", &self.workspace);
        push_arg(&mut args, "-scheme");
        push_arg_string(&mut args, &self.scheme);
        push_arg(&mut args, "-configuration");
        push_arg_string(&mut args, &self.configuration);
        push_opt_arg(&mut args, "-destination", &self.destination);
        push_opt_arg(&mut args, "-derivedDataPath", &self.derived_data_path);
        let ghost before_extra = args.deep_view();
        proof {
            assert(before_extra + self.extra_args.deep_view().take(0) =~= before_extra);
        }
        let mut i: usize = 0;
        while i < self.extra_args.len()
            invariant
                0 <= i <= self.extra_args.len(),
                self.extra_args@.len() == self.extra_args.deep_view().len(),
                args.deep_view() == before_extra + self.extra_args.deep_view().take(i as int),
            decreases self.extra_args.len() - i,
        {
            push_arg_string(&mut args, &self.extra_args[i]);
            proof {
                assert(before_extra + self.extra_args.deep_view().take(i as int + 1)
                    =~= (before_extra + self.extra_args.deep_view().take(i as int)).push(
                    self.extra_args.deep_view()[i as int],
                ));
            }
            i = i + 1;
        }
        proof {
            assert(self.extra_args.deep_view().take(self.extra_args.deep_view().len() as int)
                =~= self.extra_args.deep_view());
            assert(args.deep_view() =~= build_args(*self));
        }
        args
    }
}

impl TestParams {
    /// The argument list handed to the external tool for this test run.
    pub fn to_args(&self) -> (args: Vec<String>)
        ensures
            args.deep_view() == test_args(*self),
    {
        let mut args: Vec<String> = Vec::new();
        push_arg(&mut args, "test");
        push_opt_arg(&mut args, "-project", &self.project);
        push_opt_arg(&mut args, "-workspace", &self.workspace);
        push_arg(&mut args, "-scheme");
        push_arg_string(&mut args, &self.scheme);
        push_opt_arg(&mut args, "-destination", &self.destination);
        push_opt_arg(&mut args, "-testPlan", &self.test_plan);
        push_repeated_arg(&mut args, "-only-testing", &self.only_testing);
        push_repeated_arg(&mut args, "-skip-testing", &self.skip_testing);
        proof {
            assert(args.deep_view() =~= test_args(*self));
        }
        args
    }
}

/// Outcome of a finished external tool run.
pub struct BuildOutput {
    /// The process exited successfully.
    pub success: bool,
    /// The numeric exit code, or a sentinel when unobtainable.
    pub exit_code: i32,
    /// Every captured output line, in arrival order.
    pub logs: Vec<String>,
    /// The produced-artifact directory, when a marker line announced one.
    pub build_dir: Option<String>,
}

/// The text between the first occurrence of a marker and its next
/// occurrence (or the end of the line).
pub open spec fn segment_between(line: Seq<char>, marker: Seq<char>) -> Seq<char>
    recommends
        contains_seq(line, marker),
{
    let rest = line.skip(first_occurrence(line, marker) + marker.len());
    if contains_seq(rest, marker) {
        rest.take(first_occurrence(rest, marker))
    } else {
        rest
    }
}

/// Extracts the trimmed text after the first occurrence of a marker, up to
/// its next occurrence; nothing when the marker does not occur.
fn marker_segment(line: &str, marker: &str) -> (r: Option<String>)
    ensures
        match r {
            Some(s) => contains_seq(line@, marker@) && s@ == trimmed(
                segment_between(line@, marker@),
            ),
            None => !contains_seq(line@, marker@),
        },
{
    let mlen: usize = marker.unicode_len();
    match find_sub(line, marker) {
        None => None,
        Some(i) => {
            proof {
                lemma_first_occurrence_at(line@, marker@, i as int);
            }
            let len: usize = line.unicode_len();
            let rest = line.substring_char(i + mlen, len);
            proof {
                assert(rest@ =~= line@.skip(i as int + marker@.len()));
            }
            let end: usize = match find_sub(rest, marker) {
                Some(j) => {
                    proof {
                        lemma_first_occurrence_at(rest@, marker@, j as int);
                    }
                    j
                },
                None => rest.unicode_len(),
            };
            let seg = rest.substring_char(0, end);
            proof {
                assert(seg@ =~= segment_between(line@, marker@));
            }
            Some(trim_str(seg))
        },
    }
}

/// The artifact directory a marker line announces, if any.
pub open spec fn build_dir_of(line: Seq<char>) -> Option<Seq<char>> {
    if contains_seq(line, "BUILD_DIR = "@) {
        Some(trimmed(segment_between(line, "BUILD_DIR = "@)))
    } else {
        None
    }
}

/// The state the runner accumulates while the external tool streams its
/// output.
pub struct RunnerState {
    /// Every line seen so far, in arrival order.
    pub logs: Vec<String>,
    /// The most recent artifact directory announced by a marker line.
    pub build_dir: Option<String>,
}

impl RunnerState {
    /// A runner that has seen no output yet.
    pub fn new() -> (r: RunnerState)
        ensures
            r.logs@.len() == 0,
            r.build_dir is None,
    {
        RunnerState { logs: Vec::new(), build_dir: None }
    }

    /// Folds one streamed line into the state: the line joins the log, and
    /// a marker line replaces the recorded artifact directory.
    pub fn observe_line(&mut self, line: String)
        ensures
            final(self).logs.deep_view() == old(self).logs.deep_view().push(line@),
            final(self).build_dir.deep_view() == (match build_dir_of(line@) {
                Some(d) => Some(d),
                None => old(self).build_dir.deep_view(),
            }),
    {
        match marker_segment(line.as_str(), "BUILD_DIR = ") {
            Some(d) => {
                self.build_dir = Some(d);
            },
            None => {},
        }
        self.logs.push(line);
        proof {
            assert(final(self).logs.deep_view() =~= old(self).logs.deep_view().push(line@));
        }
    }

    /// Folds the process exit into the final outcome.
    pub fn finish(self, success: bool, exit_code: i32) -> (r: BuildOutput)
        ensures
            r.success == success,
            r.exit_code == exit_code,
            r.logs == self.logs,
            r.build_dir == self.build_dir,
    {
        BuildOutput { success, exit_code, logs: self.logs, build_dir: self.build_dir }
    }
}

/// The SDK names in the external tool's SDK listing: for each line that
/// holds the SDK marker, the trimmed text between the marker's first and
/// next occurrence.
pub open spec fn sdk_entries(ls: Seq<Seq<char>>) -> Seq<Seq<char>>
    decreases ls.len(),
{
    if ls.len() == 0 {
        Seq::empty()
    } else {
        let rest = sdk_entries(ls.drop_first());
        if contains_seq(ls[0], "-sdk"@) {
            seq![trimmed(segment_between(ls[0], "-sdk"@))] + rest
        } else {
            rest
        }
    }
}

/// Parses the external tool's SDK listing into the SDK names it holds.
pub fn parse_sdk_list(output: &str) -> (r: Vec<String>)
    ensures
        r.deep_view() == sdk_entries(lines_of(output@)),
{
    let lines = split_lines(output);
    let ghost ls = lines.deep_view();
    let mut r: Vec<String> = Vec::new();
    proof {
        assert(ls.skip(0) =~= ls);
        assert(r.deep_view() + sdk_entries(ls) =~= sdk_entries(ls));
    }
    let mut i: usize = 0;
    while i < lines.len()
        invariant
            ls == lines.deep_view(),
            lines@.len() == ls.len(),
            0 <= i <= lines.len(),
            sdk_entries(ls) =~= r.deep_view() + sdk_entries(ls.skip(i as int)),
        decreases lines.len() - i,
    {
        proof {
            assert(ls.skip(i as int)[0] == ls[i as int]);
            assert(ls.skip(i as int).drop_first() =~= ls.skip(i as int + 1));
        }
        let ghost before = r.deep_view();
        match marker_segment(lines[i].as_str(), "-sdk") {
            Some(s) => {
                r.push(s);
                proof {
                    assert(r.deep_view() =~= before.push(
                        trimmed(segment_between(ls[i as int], "-sdk"@)),
                    ));
                    assert(before + sdk_entries(ls.skip(i as int)) =~= r.deep_view()
                        + sdk_entries(ls.skip(i as int + 1)));
                }
            },
            None => {},
        }
        i = i + 1;
    }
    proof {
        assert(ls.skip(ls.len() as int) =~= Seq::<Seq<char>>::empty());
        assert(r.deep_view() =~= sdk_entries(ls));
    }
    r
}

} // verus!
