//! Parsing test counts out of the external tool's output.
//!
//! The counts come from the tool's summary line ("Executed N tests, with
//! M failures ..."): the token after "Executed" is the total, the token
//! before "failures" is the failure count, and the passed count is the
//! difference (never below zero). The extraction is a best-effort
//! heuristic: a line it cannot read yields no counts rather than an
//! error.

use vstd::prelude::*;

use crate::text::contains_seq;
use crate::text::parse_u32;
use crate::text::parse_u32_spec;
use crate::text::split_ws;
use crate::text::str_contains;
use crate::text::tokens;

verus! {

/// Index of the first token satisfying a predicate, or a negative value.
pub open spec fn idx_where(toks: Seq<Seq<char>>, p: spec_fn(Seq<char>) -> bool) -> int
    decreases toks.len(),
{
    if toks.len() == 0 {
        -1
    } else if p(toks[0]) {
        0
    } else {
        let r = idx_where(toks.drop_first(), p);
        if r < 0 {
            -1
        } else {
            r + 1
        }
    }
}

proof fn lemma_idx_where_at(toks: Seq<Seq<char>>, p: spec_fn(Seq<char>) -> bool, i: int)
    requires
        0 <= i <= toks.len(),
        forall|j: int| 0 <= j < i ==> !p(#[trigger] toks[j]),
        i < toks.len() ==> p(toks[i]),
    ensures
        i < toks.len() ==> idx_where(toks, p) == i,
        i == toks.len() ==> idx_where(toks, p) == -1,
    decreases i,
{
    if i > 0 {
        lemma_idx_where_at(toks.drop_first(), p, i - 1);
    }
}

/// A token naming the failure count's position in the summary line.
pub open spec fn is_failures_token(t: Seq<char>) -> bool {
    t == "failures"@ || t == "failure"@
}

/// What the summary line yields: passed, failed and skipped counts, when
/// the line can be read.
pub open spec fn summary_of_line(line: Seq<char>) -> Option<(u32, u32, u32)> {
    let toks = tokens(line);
    let ei = idx_where(toks, |x: Seq<char>| x == "Executed"@);
    let fi = idx_where(toks, |x: Seq<char>| is_failures_token(x));
    if ei < 0 || ei + 1 >= toks.len() {
        None
    } else {
        match parse_u32_spec(toks[ei + 1]) {
            None => None,
            Some(total) => {
                if fi < 1 {
                    None
                } else {
                    match parse_u32_spec(toks[fi - 1]) {
                        None => None,
                        Some(failed) => Some(
                            (
                                if total >= failed {
                                    (total - failed) as u32
                                } else {
                                    0u32
                                },
                                failed,
                                0u32,
                            ),
                        ),
                    }
                }
            },
        }
    }
}

/// Reads the counts out of one summary line, if it can be read.
pub fn parse_test_summary(line: &str) -> (r: Option<(u32, u32, u32)>)
    ensures
        r == summary_of_line(line@),
{
    let toks = split_ws(line);
    let ghost tv = toks.deep_view();
    let executed = "Executed".to_owned();
    let failures = "failures".to_owned();
    let failure = "failure".to_owned();

    let mut ei: usize = 0;
    while ei < toks.len() && !(toks[ei] == executed)
        invariant
            tv == toks.deep_view(),
            tv.len() == toks@.len(),
            executed@ == "Executed"@,
            0 <= ei <= toks.len(),
            forall|j: int| 0 <= j < ei ==> #[trigger] tv[j] != "Executed"@,
        decreases toks.len() - ei,
    {
        ei = ei + 1;
    }
    if ei == toks.len() {
        proof {
            lemma_idx_where_at(tv, |x: Seq<char>| x == "Executed"@, tv.len() as int);
        }
        return None;
    }
    proof {
        lemma_idx_where_at(tv, |x: Seq<char>| x == "Executed"@, ei as int);
    }
    if ei + 1 >= toks.len() {
        return None;
    }
    let total = match parse_u32(toks[ei + 1].as_str()) {
        Some(t) => t,
        None => {
            return None;
        },
    };

    let mut fi: usize = 0;
    while fi < toks.len() && !(toks[fi] == failures || toks[fi] == failure)
        invariant
            tv == toks.deep_view(),
            tv.len() == toks@.len(),
            failures@ == "failures"@,
            failure@ == "failure"@,
            0 <= fi <= toks.len(),
            forall|j: int| 0 <= j < fi ==> !is_failures_token(#[trigger] tv[j]),
        decreases toks.len() - fi,
    {
        fi = fi + 1;
    }
    if fi == toks.len() {
        proof {
            lemma_idx_where_at(tv, |x: Seq<char>| is_failures_token(x), tv.len() as int);
        }
        return None;
    }
    proof {
        lemma_idx_where_at(tv, |x: Seq<char>| is_failures_token(x), fi as int);
    }
    if fi < 1 {
        return None;
    }
    let failed = match parse_u32(toks[fi - 1].as_str()) {
        Some(f) => f,
        None => {
            return None;
        },
    };
    let passed = if total >= failed {
        total - failed
    } else {
        0
    };
    Some((passed, failed, 0))
}

/// What scanning the whole log yields: the counts of the first readable
/// summary line, or zero counts when there is none.
pub open spec fn counts_of_lines(ls: Seq<Seq<char>>) -> (u32, u32, u32)
    decreases ls.len(),
{
    if ls.len() == 0 {
        (0u32, 0u32, 0u32)
    } else if contains_seq(ls[0], "Executed"@) && contains_seq(ls[0], "tests"@)
        && summary_of_line(ls[0]) is Some {
        match summary_of_line(ls[0]) {
            Some(c) => c,
            None => (0u32, 0u32, 0u32),
        }
    } else {
        counts_of_lines(ls.drop_first())
    }
}

/// Scans the log for the first readable summary line and returns its
/// counts; zero counts when no line can be read.
pub fn parse_test_counts(logs: &Vec<String>) -> (r: (u32, u32, u32))
    ensures
        r == counts_of_lines(logs.deep_view()),
{
    let ghost dv = logs.deep_view();
    proof {
        assert(dv.skip(0) =~= dv);
    }
    let mut i: usize = 0;
    while i < logs.len()
        invariant
            dv == logs.deep_view(),
            dv.len() == logs@.len(),
            0 <= i <= logs.len(),
            counts_of_lines(dv) == counts_of_lines(dv.skip(i as int)),
        decreases logs.len() - i,
    {
        proof {
            assert(dv.skip(i as int)[0] == dv[i as int]);
            assert(dv.skip(i as int).drop_first() =~= dv.skip(i as int + 1));
        }
        let line = &logs[i];
        if str_contains(line.as_str(), "Executed") && str_contains(line.as_str(), "tests") {
            match parse_test_summary(line.as_str()) {
                Some(c) => {
                    return c;
                },
                None => {},
            }
        }
        i = i + 1;
    }
    (0, 0, 0)
}

} // verus!
