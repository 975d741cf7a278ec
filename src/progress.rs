use vstd::prelude::*;

use crate::peer::{Direction, PeerEvent};

verus! {

/// Fewest bytes between two progress reports: 256 KiB.
pub const MIN_PROGRESS_STEP: u64 = 262144;

/// Bytes that pass between two progress reports of a payload of `total`
/// bytes: a 128th of it, and at least 256 KiB, so that a transfer reports
/// about a hundred times whatever its size.
pub open spec fn progress_step(total: u64) -> u64 {
    if total / 128 > MIN_PROGRESS_STEP {
        total / 128
    } else {
        MIN_PROGRESS_STEP
    }
}

/// Whether `unreported` bytes since the last report call for a new one.
pub fn time_to_notify(unreported: u64, total: u64) -> (r: bool)
    ensures
        r == (unreported >= progress_step(total)),
{
    let step = if total / 128 > MIN_PROGRESS_STEP {
        total / 128
    } else {
        MIN_PROGRESS_STEP
    };
    unreported >= step
}

pub open spec fn is_progress(e: PeerEvent, dir: Direction) -> bool {
    e matches PeerEvent::TransferProgress(_, _, d) && d == dir
}

pub open spec fn progress_done(e: PeerEvent) -> u64 {
    match e {
        PeerEvent::TransferProgress(d, _, _) => d,
        _ => 0,
    }
}

pub open spec fn progress_total(e: PeerEvent) -> u64 {
    match e {
        PeerEvent::TransferProgress(_, t, _) => t,
        _ => 0,
    }
}

/// `log[from..to]` are progress reports of one direction toward `total`,
/// none past `upto`, and each at least the one before.
pub open spec fn progress_run(
    log: Seq<PeerEvent>,
    from: int,
    to: int,
    dir: Direction,
    total: u64,
    upto: u64,
) -> bool {
    &&& 0 <= from <= to <= log.len()
    &&& forall|i: int|
        from <= i < to ==> is_progress(#[trigger] log[i], dir) && progress_total(log[i]) == total
            && progress_done(log[i]) <= upto
    &&& forall|i: int, j: int|
        from <= i <= j < to ==> progress_done(#[trigger] log[i]) <= progress_done(#[trigger] log[j])
}

/// A run of reports stays a run when a report at least as far as `upto` is added.
pub proof fn lemma_progress_run_push(
    log: Seq<PeerEvent>,
    from: int,
    dir: Direction,
    total: u64,
    upto: u64,
    done: u64,
)
    requires
        progress_run(log, from, log.len() as int, dir, total, upto),
        upto <= done,
    ensures
        progress_run(
            log.push(PeerEvent::TransferProgress(done, total, dir)),
            from,
            log.len() as int + 1,
            dir,
            total,
            done,
        ),
{
    let l2 = log.push(PeerEvent::TransferProgress(done, total, dir));
    assert forall|i: int| from <= i < log.len() + 1 implies is_progress(#[trigger] l2[i], dir)
        && progress_total(l2[i]) == total && progress_done(l2[i]) <= done by {
        if i < log.len() {
            assert(l2[i] == log[i]);
        }
    }
    assert forall|i: int, j: int| from <= i <= j < log.len() + 1 implies progress_done(
        #[trigger] l2[i],
    ) <= progress_done(#[trigger] l2[j]) by {
        if j < log.len() {
            assert(l2[i] == log[i]);
            assert(l2[j] == log[j]);
        } else if i < log.len() {
            assert(l2[i] == log[i]);
        }
    }
}

/// A run with a bound stays a run with any larger bound.
pub proof fn lemma_progress_run_widen(
    log: Seq<PeerEvent>,
    from: int,
    to: int,
    dir: Direction,
    total: u64,
    upto: u64,
    bound: u64,
)
    requires
        progress_run(log, from, to, dir, total, upto),
        upto <= bound,
    ensures
        progress_run(log, from, to, dir, total, bound),
{
}

} // verus!
