use vstd::prelude::*;

use crate::builder::{spec_build, BuilderModel};
use crate::subscriber::{
    spec_new_span, spec_start_builder, spec_try_close, state_wf, EngineState,
};

verus! {

// ---------------------------------------------------------------------------
// Laws of the lifecycle engine
// ---------------------------------------------------------------------------

/// The engine state after `k` successive `try_close` calls on the same
/// identifier, all at instant `now`.
pub open spec fn spec_close_times(s: EngineState, id: u64, now: u64, k: nat) -> EngineState
    decreases k,
{
    if k == 0 {
        s
    } else {
        spec_try_close(spec_close_times(s, id, now, (k - 1) as nat), id, now).0
    }
}

/// A span with `n` outstanding references requires exactly `n` `try_close`
/// calls before finalization: the `k`-th call (counting from zero) answers
/// `true` exactly when it is the `n`-th, every earlier call answers `false`
/// and leaves the reference count at `n - k - 1` more than zero, and no span
/// is produced and no builder or name is touched before the finalizing call.
pub proof fn lemma_n_closes_finalize(s: EngineState, id: u64, now: u64, n: u32, k: nat)
    requires
        state_wf(s),
        s.ref_counts.contains_key(id),
        s.ref_counts[id] == n,
        n >= 1,
        k < n,
    ensures
        state_wf(spec_close_times(s, id, now, k)),
        spec_close_times(s, id, now, k).ref_counts.contains_key(id),
        spec_close_times(s, id, now, k).ref_counts[id] == n - k,
        spec_close_times(s, id, now, k).builders == s.builders,
        spec_close_times(s, id, now, k).metadata == s.metadata,
        spec_close_times(s, id, now, k).exports == s.exports,
        spec_try_close(spec_close_times(s, id, now, k), id, now).1 == (k == n - 1),
    decreases k,
{
    if k == 0 {
    } else {
        lemma_n_closes_finalize(s, id, now, n, (k - 1) as nat);
        let pre = spec_close_times(s, id, now, (k - 1) as nat);
        let post = spec_try_close(pre, id, now).0;
        assert(pre.ref_counts[id] >= 2);
        assert(post.ref_counts =~= pre.ref_counts.insert(id, (pre.ref_counts[id] - 1) as u32));
        assert(post.ref_counts.dom() =~= pre.ref_counts.dom());
    }
}

/// After the finalizing close, the identifier is gone from all three maps of
/// the span table — it can never be finalized a second time, and a further
/// `try_close` on it answers `false` — and exactly one span was produced for
/// it: the builder finalized at the instant of that close.
pub proof fn lemma_finalizing_close(s: EngineState, id: u64, now: u64, now2: u64)
    requires
        state_wf(s),
        s.ref_counts.contains_key(id),
        s.ref_counts[id] == 1,
    ensures
        spec_try_close(s, id, now).1 == true,
        !spec_try_close(s, id, now).0.ref_counts.contains_key(id),
        !spec_try_close(s, id, now).0.builders.contains_key(id),
        !spec_try_close(s, id, now).0.metadata.contains_key(id),
        state_wf(spec_try_close(s, id, now).0),
        spec_try_close(s, id, now).0.exports == s.exports.push(
            spec_build(s.builders[id], now),
        ),
        spec_try_close(spec_try_close(s, id, now).0, id, now2).1 == false,
        spec_try_close(spec_try_close(s, id, now).0, id, now2).0.exports == spec_try_close(
            s,
            id,
            now,
        ).0.exports,
        spec_build(s.builders[id], now).span_id != 0,
        spec_build(s.builders[id], now).trace_id != 0,
    {
    assert(s.builders.contains_key(id));
    let post = spec_try_close(s, id, now).0;
    assert(post.builders.dom() =~= post.metadata.dom());
    assert(post.builders.dom() =~= post.ref_counts.dom());
}

/// The duration of an exported span is the finalization instant minus the
/// recorded start, in nanoseconds, and never negative; a clock that has gone
/// backwards yields zero rather than wrapping.
pub proof fn lemma_finalized_duration(b: BuilderModel, now: u64)
    ensures
        now >= b.start ==> spec_build(b, now).duration == now - b.start,
        now < b.start ==> spec_build(b, now).duration == 0,
        spec_build(b, now).duration >= 0,
        spec_build(b, now).start == b.start,
{
}

/// A span started while a parent is active records the parent as its
/// `parent_id` and, when the parent is still in the table, inherits the
/// parent's trace identifier; a span started with no active parent has no
/// parent and keeps its own freshly drawn trace identifier.
pub proof fn lemma_parent_linkage(
    s: EngineState,
    name: Seq<char>,
    current: Option<u64>,
    sid: u64,
    tid: u64,
    now: u64,
)
    requires
        s.mappings.contains_key(name),
    ensures
        ({
            let b = spec_start_builder(s, name, current, sid, tid, now);
            &&& b.span_id == sid
            &&& match current {
                Some(pid) => b.parent_id == Some(pid) && (s.builders.contains_key(pid)
                    ==> b.trace_id == s.builders[pid].trace_id) && (!s.builders.contains_key(pid)
                    ==> b.trace_id == tid),
                None => b.parent_id == Option::<u64>::None && b.trace_id == tid,
            }
        }),
        spec_new_span(s, name, current, sid, tid, now).builders[sid] == spec_start_builder(
            s,
            name,
            current,
            sid,
            tid,
            now,
        ),
{
}

} // verus!

