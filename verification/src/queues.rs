//! Decisions of the transport loops: whether the ZeroMQ ingress is bound,
//! and how long the websocket publisher waits before reconnecting.

use vstd::prelude::*;

verus! {

/// The wait before the first reconnection attempt, in seconds.
pub const INITIAL_BACKOFF_SECS: u64 = 1;

/// The longest wait between reconnection attempts, in seconds.
pub const MAX_BACKOFF_SECS: u64 = 60;

/// The wait after one of `secs`: doubled, capped at a minute.
pub open spec fn spec_next_backoff(secs: u64) -> u64 {
    if 2 * secs <= MAX_BACKOFF_SECS {
        (2 * secs) as u64
    } else {
        MAX_BACKOFF_SECS
    }
}

/// The wait after a failed or ended connection that followed a wait of
/// `secs` seconds: twice as long, at most a minute. Doubling must not
/// overflow.
pub fn next_backoff_secs(secs: u64) -> (next: u64)
    requires
        secs <= u64::MAX / 2,
    ensures
        next == spec_next_backoff(secs),
{
    let doubled = secs * 2;
    if doubled <= MAX_BACKOFF_SECS {
        doubled
    } else {
        MAX_BACKOFF_SECS
    }
}

/// Waits stay between the first wait and the cap, never shrink, and grow
/// until they reach the cap.
pub proof fn lemma_backoff_bounded(secs: u64)
    requires
        INITIAL_BACKOFF_SECS <= secs <= MAX_BACKOFF_SECS,
    ensures
        INITIAL_BACKOFF_SECS <= spec_next_backoff(secs) <= MAX_BACKOFF_SECS,
        secs <= spec_next_backoff(secs),
        secs < MAX_BACKOFF_SECS ==> secs < spec_next_backoff(secs),
{
}

/// The ingress is bound only at a non-empty address; an empty one disables
/// it.
pub fn ingress_enabled(address: &str) -> (b: bool)
    ensures
        b == (address@.len() > 0),
{
    !address.is_empty()
}


/// The wait after a connection attempt: the first wait again after a
/// connection that was made (and then ended), else the current wait.
pub open spec fn spec_wait(next: u64, connected: bool) -> u64 {
    if connected {
        INITIAL_BACKOFF_SECS
    } else {
        next
    }
}

/// The reconnect schedule of the websocket publisher.
pub struct Backoff {
    next_secs: u64,
}

impl Backoff {
    #[verifier::type_invariant]
    spec fn inv(self) -> bool {
        INITIAL_BACKOFF_SECS <= self.next_secs <= MAX_BACKOFF_SECS
    }

    /// The wait that the next failed attempt gets.
    pub closed spec fn next(self) -> u64 {
        self.next_secs
    }

    /// A schedule that starts with the first wait.
    pub fn new() -> (b: Self)
        ensures
            b.next() == INITIAL_BACKOFF_SECS,
    {
        Backoff { next_secs: INITIAL_BACKOFF_SECS }
    }

    /// The wait, in seconds, before the next attempt, given whether the
    /// last attempt connected: one second after a connection, else the
    /// current wait; the wait after that is this one doubled, at most a
    /// minute.
    pub fn wait_after(&mut self, connected: bool) -> (wait: u64)
        ensures
            wait == spec_wait(old(self).next(), connected),
            final(self).next() == spec_next_backoff(wait),
            INITIAL_BACKOFF_SECS <= wait <= MAX_BACKOFF_SECS,
    {
        proof {
            use_type_invariant(&*self);
        }
        let wait = if connected {
            INITIAL_BACKOFF_SECS
        } else {
            self.next_secs
        };
        self.next_secs = next_backoff_secs(wait);
        wait
    }
}

/// `2^n`.
pub open spec fn two_to(n: nat) -> nat
    decreases n,
{
    if n == 0 {
        1
    } else {
        2 * two_to((n - 1) as nat)
    }
}

/// `min(2^n, 60)`.
pub open spec fn capped_wait(n: nat) -> nat {
    if two_to(n) <= MAX_BACKOFF_SECS {
        two_to(n)
    } else {
        MAX_BACKOFF_SECS as nat
    }
}

/// The waits of a run of attempts with these outcomes (`true`: the attempt
/// connected), starting from the wait `next`.
pub open spec fn run_waits(next: u64, outcomes: Seq<bool>) -> Seq<u64>
    decreases outcomes.len(),
{
    if outcomes.len() == 0 {
        Seq::empty()
    } else {
        let w = spec_wait(next, outcomes[0]);
        seq![w] + run_waits(spec_next_backoff(w), outcomes.drop_first())
    }
}

proof fn lemma_capped_step(k: nat)
    ensures
        capped_wait(k) <= MAX_BACKOFF_SECS,
        spec_next_backoff(capped_wait(k) as u64) == capped_wait(k + 1),
{
    assert(two_to(k + 1) == 2 * two_to(k));
}

proof fn lemma_failed_run(next: u64, k: nat, outcomes: Seq<bool>)
    requires
        next == capped_wait(k),
        forall|i: int| 0 <= i < outcomes.len() ==> !#[trigger] outcomes[i],
    ensures
        run_waits(next, outcomes).len() == outcomes.len(),
        forall|i: int|
            0 <= i < outcomes.len() ==> #[trigger] run_waits(next, outcomes)[i] == capped_wait(
                k + i as nat,
            ),
    decreases outcomes.len(),
{
    if outcomes.len() > 0 {
        lemma_capped_step(k);
        let rest = outcomes.drop_first();
        assert forall|i: int| 0 <= i < rest.len() implies !#[trigger] rest[i] by {
            assert(rest[i] == outcomes[i + 1]);
        }
        lemma_failed_run(spec_next_backoff(next), k + 1, rest);
        assert(!outcomes[0]);
        let r = run_waits(next, outcomes);
        assert(r == seq![next] + run_waits(spec_next_backoff(next), rest));
        assert forall|i: int| 0 <= i < outcomes.len() implies #[trigger] r[i] == capped_wait(
            k + i as nat,
        ) by {
            if i > 0 {
                assert(r[i] == run_waits(spec_next_backoff(next), rest)[i - 1]);
                assert(k + 1 + (i - 1) as nat == k + i as nat);
            }
        }
    }
}

/// After a connection, or from the start, the waits before the attempts
/// that keep failing go 1, 2, 4, ... seconds up to a minute: the `i`-th
/// wait (from 0) is `min(2^i, 60)` seconds, so an attempt always follows
/// within a minute.
pub proof fn lemma_waits_since_connection(next: u64, outcomes: Seq<bool>)
    requires
        outcomes.len() > 0,
        outcomes[0] || next == INITIAL_BACKOFF_SECS,
        forall|i: int| 0 < i < outcomes.len() ==> !#[trigger] outcomes[i],
    ensures
        run_waits(next, outcomes).len() == outcomes.len(),
        forall|i: int|
            0 <= i < outcomes.len() ==> #[trigger] run_waits(next, outcomes)[i] == capped_wait(
                i as nat,
            ) && capped_wait(i as nat) <= MAX_BACKOFF_SECS,
{
    let rest = outcomes.drop_first();
    assert forall|i: int| 0 <= i < rest.len() implies !#[trigger] rest[i] by {
        assert(rest[i] == outcomes[i + 1]);
    }
    assert(spec_wait(next, outcomes[0]) == INITIAL_BACKOFF_SECS);
    assert(capped_wait(1) == 2) by {
        assert(two_to(1) == 2 * two_to(0));
    }
    lemma_failed_run(2, 1, rest);
    let r = run_waits(next, outcomes);
    assert(r == seq![INITIAL_BACKOFF_SECS] + run_waits(2, rest));
    assert forall|i: int| 0 <= i < outcomes.len() implies #[trigger] r[i] == capped_wait(i as nat)
        && capped_wait(i as nat) <= MAX_BACKOFF_SECS by {
        lemma_capped_step(i as nat);
        if i > 0 {
            assert(r[i] == run_waits(2, rest)[i - 1]);
            assert(1 + (i - 1) as nat == i as nat);
        } else {
            assert(two_to(0) == 1);
        }
    }
}


/// A run of `wait_after` calls follows `run_waits`: from a schedule whose
/// next wait is `next`, the first call returns the first wait of the run,
/// and leaves the schedule whose run is the rest.
pub proof fn lemma_wait_after_runs(next: u64, connected: bool, rest: Seq<bool>)
    ensures
        run_waits(next, seq![connected] + rest) == seq![spec_wait(next, connected)] + run_waits(
            spec_next_backoff(spec_wait(next, connected)),
            rest,
        ),
{
    let o = seq![connected] + rest;
    assert(o[0] == connected);
    assert(o.drop_first() =~= rest);
}

} // verus!
