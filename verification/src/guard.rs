//! The replay guard: a shared append-only request log of (operation tag,
//! timestamp) pairs, pruned on every check to entries younger than 60
//! seconds. A decryption is blocked when more than 10 entries with the same
//! tag fall within the last second. A best-effort rate limiter, not a
//! cryptographic replay-prevention protocol.
use vstd::prelude::*;

verus! {

use crate::OpTag;

/// Entries at least this many seconds old are pruned from the log.
pub const PRUNE_WINDOW: u64 = 60;

/// The sliding window, in seconds, over which same-tag entries are counted.
pub const RECENT_WINDOW: u64 = 1;

/// More than this many same-tag entries within the recent window block a
/// call.
pub const REPLAY_LIMIT: usize = 10;

/// A log entry: which operation ran, and when (whole seconds).
pub type LogEntry = (OpTag, u64);

/// The entry is younger than the prune window at time `now`.
pub open spec fn young_for_prune(e: LogEntry, now: u64) -> bool {
    now - e.1 < PRUNE_WINDOW
}

/// The entry is younger than the recent window at time `now`.
pub open spec fn young_for_count(e: LogEntry, now: u64) -> bool {
    now - e.1 < RECENT_WINDOW
}

/// The log with every entry older than the prune window removed, order kept.
pub open spec fn pruned(log: Seq<LogEntry>, now: u64) -> Seq<LogEntry> {
    log.filter(|e: LogEntry| young_for_prune(e, now))
}

/// How many entries carry the given tag and are younger than the recent
/// window.
pub open spec fn recent_count(log: Seq<LogEntry>, op: OpTag, now: u64) -> nat {
    log.filter(|e: LogEntry| e.0 == op && young_for_count(e, now)).len()
}

/// The replay guard trips: more than the limit of same-tag entries within
/// the recent window.
pub open spec fn replay_blocked(log: Seq<LogEntry>, op: OpTag, now: u64) -> bool {
    recent_count(log, op, now) > REPLAY_LIMIT
}

/// Prune the log to entries younger than the prune window, then report
/// whether more than the limit of entries with this tag are younger than the
/// recent window. The check appends nothing itself.
pub fn detect_replay_attack(log: &mut Vec<LogEntry>, operation: OpTag, now: u64) -> (r: bool)
    ensures
        final(log)@ == pruned(old(log)@, now),
        r == replay_blocked(old(log)@, operation, now),
{
    let ghost log0 = log@;
    let mut kept: Vec<LogEntry> = Vec::new();
    let mut count: usize = 0;
    let mut i: usize = 0;
    proof {
        reveal(Seq::filter);
        assert(log0.subrange(0, 0) =~= Seq::<LogEntry>::empty());
    }
    while i < log.len()
        invariant
            i <= log0.len(),
            log@ == log0,
            kept@ == pruned(log0.subrange(0, i as int), now),
            count == recent_count(log0.subrange(0, i as int), operation, now),
            count <= i,
        decreases log0.len() - i,
    {
        let e = log[i];
        let keep = e.1 >= now || now - e.1 < PRUNE_WINDOW;
        if keep {
            kept.push(e);
        }
        let hit = e.0 == operation && (e.1 >= now || now - e.1 < RECENT_WINDOW);
        if hit {
            count = count + 1;
        }
        proof {
            reveal(Seq::filter);
            let s1 = log0.subrange(0, i + 1);
            assert(s1.drop_last() =~= log0.subrange(0, i as int));
            assert(s1.last() == log0[i as int]);
            assert(kept@ == pruned(s1, now));
            assert(count == recent_count(s1, operation, now));
        }
        i = i + 1;
    }
    proof {
        assert(log0.subrange(0, log0.len() as int) =~= log0);
    }
    *log = kept;
    count > REPLAY_LIMIT
}

/// Append an entry for a successful operation to the request log.
pub fn log_request(log: &mut Vec<LogEntry>, operation: OpTag, now: u64)
    ensures
        final(log)@ == old(log)@.push((operation, now)),
{
    log.push((operation, now));
}

/// When every log entry carries the tag and sits inside the recent window,
/// the count is the whole log.
proof fn lemma_recent_count_saturated(log: Seq<LogEntry>, op: OpTag, now: u64)
    requires
        forall|i: int|
            0 <= i < log.len() ==> (#[trigger] log[i]).0 == op && now - log[i].1 < RECENT_WINDOW,
    ensures
        recent_count(log, op, now) == log.len(),
    decreases log.len(),
{
    reveal(Seq::filter);
    if log.len() > 0 {
        assert(forall|i: int|
            0 <= i < log.drop_last().len() ==> (#[trigger] log.drop_last()[i]).0 == op && now
                - log.drop_last()[i].1 < RECENT_WINDOW);
        lemma_recent_count_saturated(log.drop_last(), op, now);
    }
}

/// Once more than the limit of same-tag entries land within the recent
/// window — as after eleven logged decryptions in one second — the guard
/// blocks the next call with that tag.
pub proof fn lemma_full_window_blocks(log: Seq<LogEntry>, op: OpTag, now: u64)
    requires
        forall|i: int|
            0 <= i < log.len() ==> (#[trigger] log[i]).0 == op && now - log[i].1 < RECENT_WINDOW,
        log.len() > REPLAY_LIMIT,
    ensures
        replay_blocked(log, op, now),
{
    lemma_recent_count_saturated(log, op, now);
}

/// Once every entry in the log is at least the prune window old, the recent
/// count is back to zero: the limiter resets when the window elapses.
pub proof fn lemma_replay_window_reset(log: Seq<LogEntry>, op: OpTag, now: u64)
    requires
        forall|i: int| 0 <= i < log.len() ==> now - (#[trigger] log[i]).1 >= PRUNE_WINDOW,
    ensures
        recent_count(log, op, now) == 0,
        !replay_blocked(log, op, now),
    decreases log.len(),
{
    reveal(Seq::filter);
    if log.len() > 0 {
        assert(forall|i: int|
            0 <= i < log.drop_last().len() ==> now - (#[trigger] log.drop_last()[i]).1
                >= PRUNE_WINDOW);
        lemma_replay_window_reset(log.drop_last(), op, now);
    }
}

/// Pruning never changes the recent count: every entry inside the recent
/// window is also inside the prune window, so the guard's verdict is the
/// same before and after pruning.
pub proof fn lemma_prune_preserves_recent_count(log: Seq<LogEntry>, op: OpTag, now: u64)
    ensures
        recent_count(pruned(log, now), op, now) == recent_count(log, op, now),
        replay_blocked(pruned(log, now), op, now) == replay_blocked(log, op, now),
    decreases log.len(),
{
    reveal(Seq::filter);
    if log.len() > 0 {
        lemma_prune_preserves_recent_count(log.drop_last(), op, now);
        let e = log.last();
        assert(pruned(log, now) == if young_for_prune(e, now) {
            pruned(log.drop_last(), now).push(e)
        } else {
            pruned(log.drop_last(), now)
        });
        if young_for_prune(e, now) {
            let p = pruned(log.drop_last(), now).push(e);
            assert(p.drop_last() =~= pruned(log.drop_last(), now));
            assert(p.last() == e);
        }
    }
}

} // verus!
