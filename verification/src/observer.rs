//! The log observer protocol: a pull-based incremental delivery loop.
//!
//! An observer keeps a cursor into a job's log. Each polling cycle takes a
//! snapshot of the job record, delivers every line beyond the cursor in
//! order, advances the cursor to the new log length, and ends the stream
//! with one completion event once the record is terminal — or at once, with
//! no events, when the job is unknown. The registry is never blocked by a
//! slow observer: a cycle works on the snapshot alone.

use vstd::prelude::*;

use crate::registry::BuildStatus;
use crate::registry::JobState;

verus! {

/// What one polling cycle of an observer delivers.
pub struct PollStep {
    /// The log lines beyond the cursor, in order.
    pub lines: Vec<String>,
    /// The cursor for the next cycle: the snapshot's log length.
    pub next_cursor: usize,
    /// The single completion event, present exactly when the snapshot is
    /// terminal; it carries the terminal status name.
    pub complete: Option<String>,
    /// Whether the stream ends after this cycle.
    pub ended: bool,
}

/// The status name a caller sees for a job state.
pub open spec fn spec_status_name(s: JobState) -> Seq<char> {
    match s {
        JobState::Running { .. } => "running"@,
        JobState::Success { .. } => "success"@,
        JobState::Failed { .. } => "failed"@,
        JobState::Cancelled => "cancelled"@,
    }
}

/// The status name of a job record.
pub fn status_name(st: &BuildStatus) -> (r: String)
    ensures
        r@ == spec_status_name(st@),
{
    match st {
        BuildStatus::Running { .. } => "running".to_owned(),
        BuildStatus::Success { .. } => "success".to_owned(),
        BuildStatus::Failed { .. } => "failed".to_owned(),
        BuildStatus::Cancelled => "cancelled".to_owned(),
    }
}

/// The lines a cycle delivers: everything beyond the cursor. A cursor past
/// the end (possible when a record was cancelled and its logs discarded)
/// delivers nothing.
pub open spec fn poll_lines(logs: Seq<Seq<char>>, cursor: int) -> Seq<Seq<char>> {
    if cursor <= logs.len() {
        logs.skip(cursor)
    } else {
        Seq::empty()
    }
}

/// One polling cycle of the observer loop, computed from a registry
/// snapshot and the observer's cursor.
pub fn observe_poll(snapshot: &Option<BuildStatus>, cursor: usize) -> (r: PollStep)
    ensures
        match snapshot {
            None => {
                &&& r.lines@.len() == 0
                &&& r.complete is None
                &&& r.ended
                &&& r.next_cursor == cursor
            },
            Some(st) => {
                &&& r.lines.deep_view() == poll_lines(st@.logs(), cursor as int)
                &&& r.next_cursor == st@.logs().len()
                &&& r.ended == st@.is_terminal()
                &&& (match r.complete {
                    Some(name) => st@.is_terminal() && name@ == spec_status_name(st@),
                    None => !st@.is_terminal(),
                })
            },
        },
{
    match snapshot {
        None => PollStep { lines: Vec::new(), next_cursor: cursor, complete: None, ended: true },
        Some(st) => {
            let mut logs = st.logs();
            let n = logs.len();
            let start = if cursor < n {
                cursor
            } else {
                n
            };
            let lines = logs.split_off(start);
            let terminal = st.is_complete();
            let complete = if terminal {
                Some(status_name(st))
            } else {
                None
            };
            proof {
                assert(lines.deep_view() =~= poll_lines(st@.logs(), cursor as int));
            }
            PollStep { lines, next_cursor: n, complete, ended: terminal }
        },
    }
}

/// Law: delivery is exactly once and in order across cycles. When a cycle
/// leaves the cursor at the snapshot's log length and the log has only
/// grown since (it is append-only while the job runs), the lines of the
/// first cycle followed by the lines of the next are exactly the lines
/// beyond the starting cursor — nothing is dropped or repeated, however the
/// lines arrive in bursts between cycles.
pub proof fn lemma_poll_lines_chain(earlier: Seq<Seq<char>>, later: Seq<Seq<char>>, cursor: int)
    requires
        0 <= cursor <= earlier.len(),
        earlier.is_prefix_of(later),
    ensures
        poll_lines(earlier, cursor) + poll_lines(later, earlier.len() as int) == poll_lines(
            later,
            cursor,
        ),
{
    assert(poll_lines(earlier, cursor) + poll_lines(later, earlier.len() as int) =~= poll_lines(
        later,
        cursor,
    ));
}

/// Everything delivered over a whole run of polling cycles: each cycle
/// sees one snapshot of the log and starts where the previous one left
/// off, at the previous snapshot's length.
pub open spec fn chain_delivery(snapshots: Seq<Seq<Seq<char>>>, cursor: int) -> Seq<Seq<char>>
    decreases snapshots.len(),
{
    if snapshots.len() == 0 {
        Seq::empty()
    } else {
        poll_lines(snapshots[0], cursor) + chain_delivery(
            snapshots.drop_first(),
            snapshots[0].len() as int,
        )
    }
}

proof fn lemma_chain_first_prefix(snapshots: Seq<Seq<Seq<char>>>)
    requires
        snapshots.len() > 0,
        forall|i: int|
            0 <= i < snapshots.len() - 1 ==> (#[trigger] snapshots[i]).is_prefix_of(
                snapshots[i + 1],
            ),
    ensures
        snapshots[0].is_prefix_of(snapshots.last()),
    decreases snapshots.len(),
{
    if snapshots.len() > 1 {
        lemma_chain_first_prefix(snapshots.drop_first());
        assert(snapshots[0].is_prefix_of(snapshots[1]));
        assert(snapshots.drop_first()[0] == snapshots[1]);
        assert(snapshots[0] =~= snapshots.last().subrange(0, snapshots[0].len() as int));
    }
}

/// Law: over any number of polling cycles, each reading a log that has
/// only grown since the one before, every line is delivered exactly once
/// and in order — the concatenation of all deliveries is exactly the
/// final log beyond the starting cursor.
pub proof fn lemma_chain_delivery(snapshots: Seq<Seq<Seq<char>>>, cursor: int)
    requires
        snapshots.len() > 0,
        0 <= cursor <= snapshots[0].len(),
        forall|i: int|
            0 <= i < snapshots.len() - 1 ==> (#[trigger] snapshots[i]).is_prefix_of(
                snapshots[i + 1],
            ),
    ensures
        chain_delivery(snapshots, cursor) == poll_lines(snapshots.last(), cursor),
    decreases snapshots.len(),
{
    if snapshots.len() == 1 {
        reveal_with_fuel(chain_delivery, 2);
        assert(poll_lines(snapshots[0], cursor) + Seq::<Seq<char>>::empty() =~= poll_lines(
            snapshots[0],
            cursor,
        ));
    } else {
        let rest = snapshots.drop_first();
        assert(snapshots[0].is_prefix_of(snapshots[1]));
        assert(rest[0] == snapshots[1]);
        assert forall|i: int|
            0 <= i < rest.len() - 1 implies (#[trigger] rest[i]).is_prefix_of(rest[i + 1]) by {
            assert(rest[i] == snapshots[i + 1]);
            assert(snapshots[i + 1].is_prefix_of(snapshots[i + 2]));
        }
        lemma_chain_delivery(rest, snapshots[0].len() as int);
        lemma_chain_first_prefix(snapshots);
        lemma_poll_lines_chain(snapshots[0], snapshots.last(), cursor);
        assert(rest.last() == snapshots.last());
    }
}

} // verus!
