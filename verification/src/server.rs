//! The decision core of the acceptor/worker pool: how the thread count
//! and the queue capacity are resolved, what each accept outcome leads
//! to, and when the acceptor and the workers stop. The loops that
//! accept, enqueue and serve connections run outside, around these
//! decisions.

use vstd::prelude::*;

verus! {

/// The least and greatest worker count.
pub open spec fn spec_clamp_threads(requested: Option<usize>, cpu_count: usize) -> usize {
    let t = match requested {
        Some(t) => t,
        None => cpu_count,
    };
    if t < 2 {
        2
    } else if t > 64 {
        64
    } else {
        t
    }
}

/// The worker count: the configured one, else the number of processors,
/// clamped to `[2, 64]`.
pub fn clamp_threads(requested: Option<usize>, cpu_count: usize) -> (r: usize)
    ensures
        r == spec_clamp_threads(requested, cpu_count),
        2 <= r <= 64,
{
    let t = match requested {
        Some(t) => t,
        None => cpu_count,
    };
    if t < 2 {
        2
    } else if t > 64 {
        64
    } else {
        t
    }
}

/// The queue capacity before clamping.
pub open spec fn spec_clamp_backlog(requested: Option<usize>) -> usize {
    let b = match requested {
        Some(b) => b,
        None => 256,
    };
    if b < 1 {
        1
    } else if b > 16384 {
        16384
    } else {
        b
    }
}

/// The capacity of the handoff queue: the configured one, else 256,
/// clamped to `[1, 16384]`.
pub fn clamp_backlog(requested: Option<usize>) -> (r: usize)
    ensures
        r == spec_clamp_backlog(requested),
        1 <= r <= 16384,
{
    let b = match requested {
        Some(b) => b,
        None => 256,
    };
    if b < 1 {
        1
    } else if b > 16384 {
        16384
    } else {
        b
    }
}

/// The per-operation I/O deadline in milliseconds; zero disables it.
pub fn duration(ms: u64) -> (r: Option<u64>)
    ensures
        r == if ms > 0 {
            Some(ms)
        } else {
            None::<u64>
        },
{
    if ms > 0 {
        Some(ms)
    } else {
        None
    }
}

/// What one accept call came back with.
#[derive(Copy, Clone, Debug, PartialEq, Eq, Structural)]
pub enum AcceptEvent {
    Connection,
    Cancelled,
    TimedOut,
    Failed,
}

/// What the acceptor does next.
#[derive(Copy, Clone, Debug, PartialEq, Eq, Structural)]
pub enum AcceptAction {
    Stop,
    Enqueue,
    Ignore,
}

/// The acceptor's next action: once the cancel flag is set it stops,
/// whatever the last accept came back with; otherwise a connection is
/// enqueued, and a cancelled, timed out or failed accept is ignored
/// and the loop goes on.
pub open spec fn spec_accept_step(cancelled: bool, event: AcceptEvent) -> AcceptAction {
    if cancelled {
        AcceptAction::Stop
    } else {
        match event {
            AcceptEvent::Connection => AcceptAction::Enqueue,
            _ => AcceptAction::Ignore,
        }
    }
}

/// Decides the acceptor's next action from the cancel flag and the
/// last accept outcome.
pub fn accept_step(cancelled: bool, event: &AcceptEvent) -> (r: AcceptAction)
    ensures
        r == spec_accept_step(cancelled, *event),
{
    if cancelled {
        AcceptAction::Stop
    } else {
        match event {
            AcceptEvent::Connection => AcceptAction::Enqueue,
            _ => AcceptAction::Ignore,
        }
    }
}

/// Once the cancel flag is set, the acceptor stops at its next step,
/// whatever its in-flight accept returns: it leaves the loop within
/// one accept deadline.
pub proof fn lemma_cancel_stops_acceptor(event: AcceptEvent)
    ensures
        spec_accept_step(true, event) == AcceptAction::Stop,
{
}

/// An acceptor that was not cancelled never stops: every connection is
/// enqueued and every failed accept is retried.
pub proof fn lemma_uncancelled_runs_on(event: AcceptEvent)
    ensures
        spec_accept_step(false, event) != AcceptAction::Stop,
        spec_accept_step(false, event) == AcceptAction::Enqueue <==> event
            == AcceptEvent::Connection,
{
}

/// Whether a worker serves another connection: it goes on exactly as
/// long as the queue hands one out, and exits when the channel has
/// closed behind the acceptor.
pub fn worker_should_continue(received: bool) -> (r: bool)
    ensures
        r == received,
{
    received
}

} // verus!
