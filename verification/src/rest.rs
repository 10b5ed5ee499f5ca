//! The rate-limit-aware retry discipline for outbound REST actions. The
//! HTTP transport lives outside this crate; it decodes each attempt's
//! response and feeds the outcome in here, then performs exactly the
//! suspension this machine prescribes. An action is attempted at most
//! [`ATTEMPT_BOUND`] times; the server dictates each wait precisely, with
//! no jitter and no backoff multiplier.

use vstd::prelude::*;

verus! {

/// The fixed bound on attempts for one action.
pub const ATTEMPT_BOUND: u32 = 3;

/// What the driver must do after handing in one attempt's outcome.
#[derive(Debug, Clone, Copy, PartialEq, Eq, Structural)]
pub enum RetryDirective {
    /// The attempt succeeded; the action is complete.
    Accept,
    /// The attempt was rate-limited: suspend for exactly this many
    /// milliseconds, then retry.
    Sleep { wait_ms: u32 },
    /// The attempt bound is exhausted: report `RetryExhausted` and do not
    /// retry further.
    GiveUp,
}

/// Retry bookkeeping for one action: how many attempts were made and how
/// long the action has been told to suspend in total.
#[derive(Debug)]
pub struct RestRetry {
    pub attempts_used: u32,
    pub total_wait_ms: u64,
}

/// Mathematical shape of [`RestRetry`].
pub struct RestRetryView {
    pub attempts_used: u32,
    pub total_wait_ms: u64,
}

impl View for RestRetry {
    type V = RestRetryView;

    open spec fn view(&self) -> RestRetryView {
        RestRetryView { attempts_used: self.attempts_used, total_wait_ms: self.total_wait_ms }
    }
}

/// The bookkeeping stays within the attempt bound, so the accumulated
/// wait cannot overflow.
pub open spec fn spec_retry_wf(r: RestRetryView) -> bool {
    &&& r.attempts_used <= ATTEMPT_BOUND
    &&& r.total_wait_ms <= r.attempts_used * 0xffff_ffffu64
}

/// One attempt's outcome as the machine sees it: `None` for success,
/// `Some(retry_after_ms)` for a rate-limit notice.
pub type AttemptOutcome = Option<u32>;

/// The directive after one outcome, given how many attempts were already
/// used before this one.
pub open spec fn spec_directive(used_before: u32, outcome: AttemptOutcome) -> RetryDirective {
    match outcome {
        None => RetryDirective::Accept,
        Some(ra) => if used_before + 1 < ATTEMPT_BOUND {
            RetryDirective::Sleep { wait_ms: ra }
        } else {
            RetryDirective::GiveUp
        },
    }
}

/// The whole discipline over the outcomes of successive attempts:
/// whether the action completes, and the exact total suspension in
/// milliseconds before it does (or before it gives up). Only the first
/// [`ATTEMPT_BOUND`] outcomes matter.
pub open spec fn spec_retry_outcome(rs: Seq<AttemptOutcome>, bound: nat) -> (bool, int)
    decreases bound,
{
    if bound == 0 || rs.len() == 0 {
        (false, 0)
    } else {
        match rs[0] {
            None => (true, 0),
            Some(ra) => {
                if bound == 1 {
                    (false, 0)
                } else {
                    let (ok, w) = spec_retry_outcome(rs.drop_first(), (bound - 1) as nat);
                    (ok, w + ra)
                }
            },
        }
    }
}

/// The suspension a directive prescribes.
pub open spec fn spec_wait_of(d: RetryDirective) -> u32 {
    match d {
        RetryDirective::Sleep { wait_ms } => wait_ms,
        _ => 0,
    }
}

impl RestRetry {
    /// Fresh bookkeeping for one action.
    pub fn new() -> (r: RestRetry)
        ensures
            r@.attempts_used == 0,
            r@.total_wait_ms == 0,
            spec_retry_wf(r@),
    {
        RestRetry { attempts_used: 0, total_wait_ms: 0 }
    }

    /// Hands in the outcome of one attempt. Success is accepted; a
    /// rate-limit notice prescribes exactly the server's wait, or gives
    /// up once this was the last allowed attempt. The bookkeeping adds
    /// exactly the wait that is actually prescribed.
    pub fn on_response(&mut self, outcome: AttemptOutcome) -> (d: RetryDirective)
        requires
            spec_retry_wf(old(self)@),
            old(self)@.attempts_used < ATTEMPT_BOUND,
        ensures
            spec_retry_wf(final(self)@),
            final(self)@.attempts_used == old(self)@.attempts_used + 1,
            d == spec_directive(old(self)@.attempts_used, outcome),
            final(self)@.total_wait_ms == old(self)@.total_wait_ms + spec_wait_of(d),
    {
        self.attempts_used = self.attempts_used + 1;
        match outcome {
            None => RetryDirective::Accept,
            Some(ra) => {
                proof {
                    let w = old(self)@.total_wait_ms;
                    let u = old(self)@.attempts_used;
                    let u1 = self@.attempts_used;
                    assert(w + ra <= 3 * 0xffff_ffffu64) by (nonlinear_arith)
                        requires
                            w <= u * 0xffff_ffffu64,
                            u < 3,
                            ra <= 0xffff_ffffu32,
                    ;
                    assert(u1 * 0xffff_ffffu64 >= u * 0xffff_ffffu64 + 0xffff_ffffu64)
                        by (nonlinear_arith)
                        requires
                            u1 == u + 1,
                    ;
                }
                if self.attempts_used < ATTEMPT_BOUND {
                    self.total_wait_ms = self.total_wait_ms + ra as u64;
                    RetryDirective::Sleep { wait_ms: ra }
                } else {
                    RetryDirective::GiveUp
                }
            },
        }
    }
}

/// Runs the whole discipline against the outcomes of successive attempts,
/// as the driver would: the result says whether the action completed and
/// the exact total suspension it incurred. A caller with fewer outcomes
/// than the bound simply has the action fail no later than their count.
pub fn run_retry(rs: &Vec<AttemptOutcome>) -> (r: (bool, u64))
    ensures
        r.0 == spec_retry_outcome(rs@, ATTEMPT_BOUND as nat).0,
        r.1 as int == spec_retry_outcome(rs@, ATTEMPT_BOUND as nat).1,
{
    let mut m = RestRetry::new();
    let mut k: usize = 0;
    proof {
        assert(rs@.skip(0) =~= rs@);
    }
    loop
        invariant
            spec_retry_wf(m@),
            m@.attempts_used == k,
            k <= ATTEMPT_BOUND,
            k <= rs@.len(),
            spec_retry_outcome(rs@, ATTEMPT_BOUND as nat).0 == spec_retry_outcome(
                rs@.skip(k as int),
                (ATTEMPT_BOUND - k) as nat,
            ).0,
            spec_retry_outcome(rs@, ATTEMPT_BOUND as nat).1 == spec_retry_outcome(
                rs@.skip(k as int),
                (ATTEMPT_BOUND - k) as nat,
            ).1 + m@.total_wait_ms,
        decreases ATTEMPT_BOUND - k,
    {
        if k >= rs.len() || k as u32 >= ATTEMPT_BOUND {
            proof {
                assert(rs@.skip(k as int).len() == rs@.len() - k);
                assert(spec_retry_outcome(rs@.skip(k as int), (ATTEMPT_BOUND - k) as nat) == (
                false,
                0int,
                ));
            }
            return (false, m.total_wait_ms);
        }
        let outcome = rs[k];
        let d = m.on_response(outcome);
        proof {
            assert(rs@.skip(k as int)[0] == rs@[k as int]);
            assert(rs@.skip(k as int).drop_first() =~= rs@.skip(k as int + 1));
        }
        match d {
            RetryDirective::Accept => {
                return (true, m.total_wait_ms);
            },
            RetryDirective::Sleep { wait_ms: _ } => {
                k = k + 1;
            },
            RetryDirective::GiveUp => {
                return (false, m.total_wait_ms);
            },
        }
    }
}

/// An action rate-limited on every allowed attempt is reported exhausted,
/// after suspending exactly the waits the server dictated before the
/// final attempt; one that succeeds on an earlier attempt completes,
/// after exactly the waits that preceded it.
pub proof fn lemma_retry_discipline(rs: Seq<AttemptOutcome>)
    requires
        rs.len() >= 3,
    ensures
        (rs[0] is Some && rs[1] is Some && rs[2] is Some) ==> spec_retry_outcome(rs, 3) == (
        false,
        rs[0].unwrap() + rs[1].unwrap() as int,
        ),
        rs[0] is None ==> spec_retry_outcome(rs, 3) == (true, 0int),
        (rs[0] is Some && rs[1] is None) ==> spec_retry_outcome(rs, 3) == (
        true,
        rs[0].unwrap() as int,
        ),
        (rs[0] is Some && rs[1] is Some && rs[2] is None) ==> spec_retry_outcome(rs, 3) == (
        true,
        rs[0].unwrap() + rs[1].unwrap() as int,
        ),
{
    reveal_with_fuel(spec_retry_outcome, 4);
    assert(rs.drop_first()[0] == rs[1]);
    assert(rs.drop_first().drop_first()[0] == rs[2]);
}

} // verus!
