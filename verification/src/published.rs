//! The values that instrumented code reads before the option record is
//! complete: the two thresholds and the statistics flag.

use crate::options::{default_options, Options, OptionsView};
use vstd::math::max;
use vstd::prelude::*;

verus! {

/// The number of calls after which profiling starts, given the number of calls
/// after which compilation starts and the number of profiled calls.
///
/// A call threshold of 1 compiles on the first call, so nothing is profiled.
/// Otherwise profiling starts `num_profiles` calls before compilation, and
/// never before the first call.
pub open spec fn derived_profile_threshold(call_threshold: u64, num_profiles: u8) -> int {
    if call_threshold == 1 {
        0
    } else {
        max(1, call_threshold - num_profiles)
    }
}

/// The early-published state. The option parser is its only writer.
#[derive(Clone, Copy, Debug, PartialEq, Eq, Structural)]
pub struct PublishedState {
    /// Number of calls to compile an ISEQ.
    pub call_threshold: u64,
    /// Number of calls to start profiling YARV instructions. Always derived
    /// from the call threshold and the number of profiles.
    pub profile_threshold: u64,
    /// True if statistics are enabled.
    pub stats_enabled: bool,
}

impl PublishedState {
    /// The state before any option is parsed: compile on the second call,
    /// profile the first, no statistics.
    pub open spec fn initial() -> PublishedState {
        PublishedState { call_threshold: 2, profile_threshold: 1, stats_enabled: false }
    }

    /// Whether this state is the one that belongs to the record `options`:
    /// the profile threshold is the derived one, and the statistics flag
    /// mirrors the record's.
    pub open spec fn agrees_with(self, options: OptionsView) -> bool {
        &&& self.profile_threshold == derived_profile_threshold(
            self.call_threshold,
            options.num_profiles,
        )
        &&& self.stats_enabled == options.stats
    }

    /// The state before any option is parsed.
    pub fn new() -> (state: Self)
        ensures
            state == Self::initial(),
    {
        PublishedState { call_threshold: 2, profile_threshold: 1, stats_enabled: false }
    }
}

/// Before any option is parsed, the published state agrees with the record.
pub proof fn lemma_defaults_agree()
    ensures
        PublishedState::initial().agrees_with(default_options()),
{
}

/// The derived profile threshold is a count of calls that fits the published
/// field, and profiling never starts after compilation: with a call threshold
/// of at least 1 it is no greater than the call threshold.
pub proof fn lemma_profile_threshold_bounds(call_threshold: u64, num_profiles: u8)
    ensures
        0 <= derived_profile_threshold(call_threshold, num_profiles) <= u64::MAX,
        call_threshold >= 1 ==> derived_profile_threshold(call_threshold, num_profiles)
            <= call_threshold,
{
}

/// Update the profile threshold based on the call threshold and `options.num_profiles`
pub fn update_profile_threshold(published: &mut PublishedState, options: &Options)
    ensures
        final(published).call_threshold == old(published).call_threshold,
        final(published).stats_enabled == old(published).stats_enabled,
        final(published).profile_threshold == derived_profile_threshold(
            old(published).call_threshold,
            options.num_profiles,
        ),
        old(published).call_threshold == 1 ==> final(published).profile_threshold == 0,
        old(published).call_threshold > 1 ==> final(published).profile_threshold == max(
            1,
            old(published).call_threshold - options.num_profiles,
        ),
{
    if published.call_threshold == 1 {
        // With a call threshold of 1, never rewrite ISEQs to profile instructions.
        published.profile_threshold = 0;
    } else {
        // Otherwise, profile instructions at least once.
        published.profile_threshold = published.call_threshold.saturating_sub(
            options.num_profiles as u64,
        ).max(1);
    }
}

} // verus!
