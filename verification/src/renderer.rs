//! The external renderer's decision core. The subprocess itself (spawning
//! `dot`, feeding its standard input, awaiting its exit) is driven by the
//! adapter around the library; this module owns the decisions: the bounded
//! spawn retry policy with its backoff delays, and the mapping from
//! subprocess outcomes to the run's errors.

use crate::errors::GraphvizError;
use vstd::prelude::*;

verus! {

/// Total spawn attempts allowed before giving up.
pub const MAX_SPAWN_RETRIES: u64 = 5;

/// The decision before one more spawn attempt.
#[derive(Clone, Copy, PartialEq, Eq, Structural, Debug)]
pub enum SpawnDecision {
    /// Wait this many milliseconds, then attempt the spawn.
    Attempt { delay_ms: u64 },
    /// Every allowed attempt has been used: fail with `SpawnExhausted`.
    GiveUp,
}

/// What the policy decides when `failed` attempts have already failed: the
/// backoff delay before attempt `n` is `n * n * 10` milliseconds (1-based),
/// and after the fifth failure the spawn is abandoned.
pub open spec fn spawn_decision_spec(failed: nat) -> SpawnDecision {
    if failed < MAX_SPAWN_RETRIES {
        SpawnDecision::Attempt { delay_ms: (((failed + 1) * (failed + 1) * 10) as u64) }
    } else {
        SpawnDecision::GiveUp
    }
}

/// Retry state for spawning the renderer subprocess once.
pub struct SpawnBackoff {
    /// How many spawn attempts have failed so far.
    pub failed_attempts: u64,
}

impl SpawnBackoff {
    /// The policy never counts past the attempt bound.
    pub open spec fn wf(&self) -> bool {
        self.failed_attempts <= MAX_SPAWN_RETRIES
    }

    /// A fresh policy: no attempt made yet.
    pub fn new() -> (s: SpawnBackoff)
        ensures
            s.failed_attempts == 0,
            s.wf(),
    {
        SpawnBackoff { failed_attempts: 0 }
    }

    /// The decision before the next attempt: the backoff delay to wait, or
    /// that the spawn is abandoned.
    pub fn next_decision(&self) -> (d: SpawnDecision)
        requires
            self.wf(),
        ensures
            d == spawn_decision_spec(self.failed_attempts as nat),
    {
        if self.failed_attempts < MAX_SPAWN_RETRIES {
            let n = self.failed_attempts + 1;
            proof {
                assert(n * n * 10 <= 250) by (nonlinear_arith)
                    requires 1 <= n <= 5;
            }
            SpawnDecision::Attempt { delay_ms: n * n * 10 }
        } else {
            SpawnDecision::GiveUp
        }
    }

    /// Records one failed spawn attempt.
    pub fn record_failure(&mut self)
        requires
            old(self).wf(),
            old(self).failed_attempts < MAX_SPAWN_RETRIES,
        ensures
            final(self).failed_attempts == old(self).failed_attempts + 1,
            final(self).wf(),
    {
        self.failed_attempts = self.failed_attempts + 1;
    }
}

/// The renderer backed by the `dot` command line tool, reading diagram source
/// on standard input and writing a scalable vector image to the output path.
/// The adapter around the library performs the subprocess work; this type
/// decides retries and outcomes.
pub struct CommandLineGraphviz;

impl CommandLineGraphviz {
    /// A fresh retry policy for spawning one subprocess.
    pub fn spawn_policy(&self) -> (s: SpawnBackoff)
        ensures
            s.failed_attempts == 0,
            s.wf(),
    {
        SpawnBackoff::new()
    }

    /// The run's error once every spawn attempt has failed.
    pub fn exhausted_error(&self) -> (e: GraphvizError)
        ensures
            e == GraphvizError::SpawnExhausted,
    {
        GraphvizError::SpawnExhausted
    }

    /// The outcome of a finished subprocess: success exactly on a successful
    /// exit status, otherwise the render failed.
    pub fn exit_outcome(&self, success: bool) -> (r: Result<(), GraphvizError>)
        ensures
            success ==> r is Ok,
            !success ==> (r matches Err(e) && e == GraphvizError::RenderFailed),
    {
        if success {
            Ok(())
        } else {
            Err(GraphvizError::RenderFailed)
        }
    }

    /// The outcome of writing the block's source to the subprocess: a failed
    /// write aborts at once, with no retry.
    pub fn stdin_outcome(&self, ok: bool) -> (r: Result<(), GraphvizError>)
        ensures
            ok ==> r is Ok,
            !ok ==> (r matches Err(e) && e == GraphvizError::IoFailure),
    {
        if ok {
            Ok(())
        } else {
            Err(GraphvizError::IoFailure)
        }
    }
}

/// Law: when every spawn attempt fails, the policy allows exactly five
/// attempts, with backoff delays of 10, 40, 90, 160 and 250 milliseconds
/// before attempts one to five, and then gives up, which the renderer
/// reports as `SpawnExhausted`.
pub proof fn lemma_spawn_exhausted_after_five_failures()
    ensures
        spawn_decision_spec(0) == (SpawnDecision::Attempt { delay_ms: 10u64 }),
        spawn_decision_spec(1) == (SpawnDecision::Attempt { delay_ms: 40u64 }),
        spawn_decision_spec(2) == (SpawnDecision::Attempt { delay_ms: 90u64 }),
        spawn_decision_spec(3) == (SpawnDecision::Attempt { delay_ms: 160u64 }),
        spawn_decision_spec(4) == (SpawnDecision::Attempt { delay_ms: 250u64 }),
        forall|k: nat| k >= 5 ==> spawn_decision_spec(k) == SpawnDecision::GiveUp,
{
    assert((0nat + 1) * (0nat + 1) * 10 == 10) by (nonlinear_arith);
    assert((1nat + 1) * (1nat + 1) * 10 == 40) by (nonlinear_arith);
    assert((2nat + 1) * (2nat + 1) * 10 == 90) by (nonlinear_arith);
    assert((3nat + 1) * (3nat + 1) * 10 == 160) by (nonlinear_arith);
    assert((4nat + 1) * (4nat + 1) * 10 == 250) by (nonlinear_arith);
}

} // verus!
