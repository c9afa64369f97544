//! Exponential back-off for retried requests.
//!
//! The policy allows `max_retries` further attempts after the first; each
//! failure before the last is followed by a pause that starts at the base
//! delay and doubles after every retry. The caller performs the attempts
//! and the pauses, and asks the policy what to do after each failure.
use vstd::prelude::*;

verus! {

/// What follows a failed attempt.
#[derive(PartialEq, Eq, Structural, Debug, Clone, Copy)]
pub enum RetryStep {
    /// Pause for this many milliseconds, then try again.
    Wait(u64),
    /// Give up and report the error of the attempt that just failed.
    GiveUp,
}

/// The state of a retried request.
#[derive(Clone, Debug)]
pub struct RetryPolicy {
    attempt: u32,
    max_retries: u32,
    delay_ms: u64,
}

/// The abstract state: attempts made so far (minus one), retries allowed,
/// current pause.
pub struct RetryView {
    pub attempt: nat,
    pub max_retries: nat,
    pub delay_ms: nat,
}

/// One decision of the policy: the state after a failure, and the step.
pub open spec fn retry_step(s: RetryView) -> (RetryView, Option<nat>) {
    if s.attempt < s.max_retries {
        (RetryView { attempt: s.attempt + 1, max_retries: s.max_retries, delay_ms: s.delay_ms * 2 }, Some(s.delay_ms))
    } else {
        (s, None)
    }
}

/// The state after `n` failures, starting from a fresh policy.
pub open spec fn state_after(max_retries: nat, base_delay_ms: nat, n: nat) -> RetryView
    decreases n,
{
    if n == 0 {
        RetryView { attempt: 0, max_retries, delay_ms: base_delay_ms }
    } else {
        retry_step(state_after(max_retries, base_delay_ms, (n - 1) as nat)).0
    }
}

/// Two to the power `n`.
pub open spec fn pow2(n: nat) -> nat
    decreases n,
{
    if n == 0 {
        1
    } else {
        2 * pow2((n - 1) as nat)
    }
}

impl View for RetryPolicy {
    type V = RetryView;

    closed spec fn view(&self) -> RetryView {
        RetryView { attempt: self.attempt as nat, max_retries: self.max_retries as nat, delay_ms: self.delay_ms as nat }
    }
}

impl RetryPolicy {
    /// Attempts made so far never exceed the first one plus the retries.
    pub closed spec fn wf(&self) -> bool {
        self.attempt <= self.max_retries
    }

    /// A fresh policy: `max_retries` retries after the first attempt,
    /// pausing `base_delay_ms` before the first retry.
    pub fn new(max_retries: u32, base_delay_ms: u64) -> (r: RetryPolicy)
        ensures
            r.wf(),
            r@ == state_after(max_retries as nat, base_delay_ms as nat, 0),
    {
        RetryPolicy { attempt: 0, max_retries, delay_ms: base_delay_ms }
    }

    /// Whether a failure can be recorded now: no retry remains, or the
    /// pause can still double within `u64` (the doubling of a pause beyond
    /// that range is refused).
    pub fn can_record_failure(&self) -> (r: bool)
        ensures
            r == (self@.attempt < self@.max_retries ==> self@.delay_ms * 2 <= u64::MAX),
    {
        self.attempt >= self.max_retries || self.delay_ms <= u64::MAX / 2
    }

    /// Records a failed attempt and says what follows: a pause of the
    /// current delay (which then doubles) while retries remain, else giving
    /// up.
    pub fn after_failure(&mut self) -> (r: RetryStep)
        requires
            old(self).wf(),
            old(self)@.attempt < old(self)@.max_retries ==> old(self)@.delay_ms * 2 <= u64::MAX,
        ensures
            final(self).wf(),
            final(self)@ == retry_step(old(self)@).0,
            match retry_step(old(self)@).1 {
                Some(d) => r == RetryStep::Wait(d as u64),
                None => r == RetryStep::GiveUp,
            },
    {
        if self.attempt < self.max_retries {
            let d = self.delay_ms;
            self.attempt = self.attempt + 1;
            self.delay_ms = d * 2;
            RetryStep::Wait(d)
        } else {
            RetryStep::GiveUp
        }
    }
}

/// A fresh policy with `max_retries` retries pauses `base * 2^i` before the
/// retry that follows failure `i` (counted from zero) for every
/// `i < max_retries`, and gives up at failure `max_retries`: so a request
/// that never succeeds is attempted exactly `max_retries + 1` times.
pub proof fn lemma_retry_schedule(max_retries: nat, base_delay_ms: nat, i: nat)
    requires
        i <= max_retries,
    ensures
        state_after(max_retries, base_delay_ms, i) == (RetryView {
            attempt: i,
            max_retries,
            delay_ms: base_delay_ms * pow2(i),
        }),
        i < max_retries ==> retry_step(state_after(max_retries, base_delay_ms, i)).1 == Some(
            base_delay_ms * pow2(i),
        ),
        i == max_retries ==> retry_step(state_after(max_retries, base_delay_ms, i)).1 is None,
    decreases i,
{
    if i > 0 {
        lemma_retry_schedule(max_retries, base_delay_ms, (i - 1) as nat);
        assert(base_delay_ms * pow2((i - 1) as nat) * 2 == base_delay_ms * pow2(i)) by (nonlinear_arith)
            requires
                pow2(i) == 2 * pow2((i - 1) as nat),
        ;
    } else {
        assert(base_delay_ms * 1 == base_delay_ms);
    }
}

} // verus!
