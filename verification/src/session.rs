//! Per-(target, method) scan bookkeeping: the early-stop flag, tier
//! sequencing, the reporting policy, operator options, and the handling of
//! each error kind. The two methods of a target are independent scan passes,
//! each with its own flag.

use vstd::prelude::*;
use crate::classify::{conclusive, is_conclusive, Verdict};

verus! {

/// The default cap on concurrently processed targets.
pub const DEFAULT_TARGET_CONCURRENCY: usize = 200;

/// The fixed cap on concurrently issued probes within one tier.
pub const TIER_CONCURRENCY: usize = 50;

/// The number of wordlist names set together in one sweep probe.
pub const SWEEP_CHUNK_SIZE: usize = 35;

/// Operator-tunable parameters, already parsed by a collaborator.
pub struct Opt {
    /// Path of the target-list file; standard input when absent.
    pub file: Option<String>,
    /// Cap on concurrently processed targets.
    pub concurrency: usize,
    /// Whether informational verdicts and errors are printed.
    pub verbose: bool,
}

/// The HTTP method of a probe; each method is a scan pass of its own.
#[derive(Clone, Copy, PartialEq, Eq, Structural, Debug)]
pub enum Method {
    Get,
    Post,
}

/// The three candidate-enumeration tiers, in evaluation order.
#[derive(Clone, Copy, PartialEq, Eq, Structural, Debug)]
pub enum Tier {
    /// Replace one existing query parameter's value at a time.
    ExistingParams,
    /// Probe each parameter name discovered in the response body.
    DiscoveredParams,
    /// Sweep the wordlist in fixed-size chunks.
    WordlistSweep,
}

/// The shared early-stop flag of one (target, method) pair. It is created
/// when the pair's scan starts and discarded at its end, never shared across
/// targets or methods.
pub struct EarlyStop {
    /// Whether a conclusive verdict has been recorded.
    pub found: bool,
}

/// The flag after one verdict is recorded: set once a conclusive verdict
/// arrives, and never cleared again.
pub open spec fn record_spec(s: EarlyStop, v: Verdict) -> EarlyStop {
    EarlyStop { found: s.found || conclusive(v) }
}

/// The tier after `t`, followed when the flag is still clear.
pub open spec fn next_tier_spec(t: Tier) -> Option<Tier> {
    match t {
        Tier::ExistingParams => Some(Tier::DiscoveredParams),
        Tier::DiscoveredParams => Some(Tier::WordlistSweep),
        Tier::WordlistSweep => None,
    }
}

/// The tier to run after `t` under flag `s`: the next one in order, or none
/// once the flag is set.
pub open spec fn advance_tier_spec(t: Tier, s: EarlyStop) -> Option<Tier> {
    if s.found {
        None
    } else {
        next_tier_spec(t)
    }
}

impl EarlyStop {
    /// A fresh flag for one (target, method) pair.
    pub fn new() -> (r: EarlyStop)
        ensures
            !r.found,
    {
        EarlyStop { found: false }
    }

    /// Takes one probe's verdict into the flag: a conclusive verdict sets it.
    pub fn record(&mut self, v: &Verdict)
        ensures
            *final(self) == record_spec(*old(self), *v),
    {
        if is_conclusive(v) {
            self.found = true;
        }
    }

    /// Whether a probe of this pair may still start its network call.
    pub fn may_start(&self) -> (r: bool)
        ensures
            r == !self.found,
    {
        !self.found
    }
}

/// The tier to run after `current` under flag `stop`.
pub fn advance_tier(current: Tier, stop: &EarlyStop) -> (r: Option<Tier>)
    ensures
        r == advance_tier_spec(current, *stop),
{
    if stop.found {
        None
    } else {
        match current {
            Tier::ExistingParams => Some(Tier::DiscoveredParams),
            Tier::DiscoveredParams => Some(Tier::WordlistSweep),
            Tier::WordlistSweep => None,
        }
    }
}

/// Whether a verdict line is printed: conclusive verdicts always, the
/// informational ones only in verbose mode.
pub fn should_report(v: &Verdict, verbose: bool) -> (r: bool)
    ensures
        r == (conclusive(*v) || verbose),
{
    is_conclusive(v) || verbose
}

/// Once the flag of a (target, method) pair is set it stays set under every
/// further verdict, no probe of the pair may start, and no further tier is
/// entered.
pub proof fn lemma_early_stop_is_permanent(s: EarlyStop, v: Verdict, t: Tier)
    requires
        s.found,
    ensures
        record_spec(s, v).found,
        advance_tier_spec(t, s) is None,
{
}

/// A conclusive verdict sets the flag whatever its prior state; an
/// inconclusive one leaves the flag exactly as it was.
pub proof fn lemma_record_sets_flag(s: EarlyStop, v: Verdict)
    ensures
        conclusive(v) ==> record_spec(s, v).found,
        !conclusive(v) ==> record_spec(s, v).found == s.found,
{
}

/// The error kinds of a scan.
#[derive(Clone, Copy, PartialEq, Eq, Structural, Debug)]
pub enum ScanError {
    /// The target URL does not parse.
    TargetParse,
    /// A probe's network call failed.
    Network,
    /// A probe's response stream failed mid-read.
    BodyRead,
    /// The external wordlist could not be fetched.
    WordlistFetch,
}

/// What a scan does on an error of each kind.
#[derive(Clone, Copy, PartialEq, Eq, Structural, Debug)]
pub enum ErrorAction {
    /// Skip this target; the run continues.
    SkipTarget,
    /// Skip this probe only, with no retry; the tier continues.
    SkipProbe,
    /// Abort the whole run.
    AbortRun,
}

/// The handling of each error kind: a malformed target is skipped, a failed
/// probe is skipped without retry, a missing wordlist aborts the run.
pub open spec fn error_action_spec(e: ScanError) -> ErrorAction {
    match e {
        ScanError::TargetParse => ErrorAction::SkipTarget,
        ScanError::Network => ErrorAction::SkipProbe,
        ScanError::BodyRead => ErrorAction::SkipProbe,
        ScanError::WordlistFetch => ErrorAction::AbortRun,
    }
}

/// The action a scan takes on error `e`.
pub fn error_action(e: &ScanError) -> (r: ErrorAction)
    ensures
        r == error_action_spec(*e),
{
    match e {
        ScanError::TargetParse => ErrorAction::SkipTarget,
        ScanError::Network => ErrorAction::SkipProbe,
        ScanError::BodyRead => ErrorAction::SkipProbe,
        ScanError::WordlistFetch => ErrorAction::AbortRun,
    }
}

} // verus!
