//! Taking one attestation into a token's state: the signature verdict comes
//! first, then freshness, and only then do the points move.

use crate::error::AiNftError;
use crate::policy::EvolutionPolicy;
use crate::state::{
    NftEvolutionAccount, NftEvolutionAccountView, OracleDataAccount, OracleDataAccountView,
};
use vstd::prelude::*;

verus! {

/// An attestation is fresh when it is strictly newer than the last one taken
/// in. One made at the same time as the last is a repetition.
pub open spec fn spec_check_freshness(timestamp: i64, last_processed_timestamp: i64) -> Result<
    (),
    AiNftError,
> {
    if timestamp > last_processed_timestamp {
        Ok(())
    } else {
        Err(AiNftError::DataAlreadyProcessed)
    }
}

/// Refuses an attestation that is not strictly newer than the last one taken
/// in.
pub fn check_freshness(timestamp: i64, last_processed_timestamp: i64) -> (r: Result<(), AiNftError>)
    ensures
        r == spec_check_freshness(timestamp, last_processed_timestamp),
{
    if timestamp > last_processed_timestamp {
        Ok(())
    } else {
        Err(AiNftError::DataAlreadyProcessed)
    }
}

impl NftEvolutionAccountView {
    /// The state after an attestation with the given signature verdict. A
    /// failed verdict is handed back as it is, whatever the timestamps; a
    /// stale attestation is refused; otherwise the state remembers the score
    /// and the timestamp, and the policy moves the points.
    pub open spec fn spec_apply_attestation(
        self,
        attestation: OracleDataAccountView,
        verdict: Result<(), AiNftError>,
        policy: EvolutionPolicy,
    ) -> Result<NftEvolutionAccountView, AiNftError> {
        if let Err(e) = verdict {
            Err(e)
        } else if let Err(e) = spec_check_freshness(
            attestation.timestamp,
            self.last_processed_timestamp,
        ) {
            Err(e)
        } else {
            Ok(
                NftEvolutionAccountView {
                    is_initialized: self.is_initialized,
                    nft_mint: self.nft_mint,
                    last_processed_sentiment: attestation.sentiment_score,
                    last_processed_timestamp: attestation.timestamp,
                    evolution_points: policy.spec_apply(
                        attestation.sentiment_score,
                        self.evolution_points,
                    ),
                },
            )
        }
    }
}

impl NftEvolutionAccount {
    /// Takes an attestation into the state, given the verdict on its
    /// signature, and returns the new state. The state itself is not touched,
    /// so a refusal leaves nothing half done.
    pub fn apply_attestation(
        &self,
        attestation: &OracleDataAccount,
        verdict: Result<(), AiNftError>,
        policy: &EvolutionPolicy,
    ) -> (r: Result<NftEvolutionAccount, AiNftError>)
        ensures
            match self@.spec_apply_attestation(attestation@, verdict, *policy) {
                Ok(v) => r matches Ok(next) && next@ == v,
                Err(e) => r matches Err(x) && x == e,
            },
    {
        if let Err(e) = verdict {
            return Err(e);
        }
        if let Err(e) = check_freshness(attestation.timestamp, self.last_processed_timestamp) {
            return Err(e);
        }
        Ok(
            NftEvolutionAccount {
                is_initialized: self.is_initialized,
                nft_mint: self.nft_mint,
                last_processed_sentiment: attestation.sentiment_score,
                last_processed_timestamp: attestation.timestamp,
                evolution_points: policy.apply(attestation.sentiment_score, self.evolution_points),
            },
        )
    }
}

/// An attestation that was taken in is refused as already processed when it
/// is presented again, under any policy.
pub proof fn lemma_repetition_is_refused(
    state: NftEvolutionAccountView,
    attestation: OracleDataAccountView,
    policy: EvolutionPolicy,
    again: EvolutionPolicy,
)
    requires
        state.spec_apply_attestation(attestation, Ok(()), policy) is Ok,
    ensures
        state.spec_apply_attestation(attestation, Ok(()), policy)->Ok_0.spec_apply_attestation(
            attestation,
            Ok(()),
            again,
        ) == Err::<NftEvolutionAccountView, AiNftError>(AiNftError::DataAlreadyProcessed),
{
}

/// A taken attestation moves the last timestamp strictly forward and leaves
/// the flag and the mint as they were.
pub proof fn lemma_accepted_attestation_advances(
    state: NftEvolutionAccountView,
    attestation: OracleDataAccountView,
    verdict: Result<(), AiNftError>,
    policy: EvolutionPolicy,
)
    requires
        state.spec_apply_attestation(attestation, verdict, policy) is Ok,
    ensures
        verdict is Ok,
        state.spec_apply_attestation(attestation, verdict, policy)->Ok_0.last_processed_timestamp
            > state.last_processed_timestamp,
        state.spec_apply_attestation(attestation, verdict, policy)->Ok_0.last_processed_timestamp
            == attestation.timestamp,
        state.spec_apply_attestation(attestation, verdict, policy)->Ok_0.is_initialized
            == state.is_initialized,
        state.spec_apply_attestation(attestation, verdict, policy)->Ok_0.nft_mint == state.nft_mint,
{
}

/// Whether `after` is what `before` becomes by taking in some attestation
/// under some policy.
pub open spec fn is_accepted_step(
    before: NftEvolutionAccountView,
    after: NftEvolutionAccountView,
) -> bool {
    exists|
        attestation: OracleDataAccountView,
        verdict: Result<(), AiNftError>,
        policy: EvolutionPolicy,
    |
        #[trigger] before.spec_apply_attestation(attestation, verdict, policy) == Ok::<
            NftEvolutionAccountView,
            AiNftError,
        >(after)
}

/// Whether the state at `i` becomes the state behind it by an accepted step.
pub open spec fn is_accepted_step_at(states: Seq<NftEvolutionAccountView>, i: int) -> bool {
    is_accepted_step(states[i], states[i + 1])
}

/// Whether each state of `states` but the first comes from its predecessor
/// by an accepted step.
pub open spec fn is_accepted_history(states: Seq<NftEvolutionAccountView>) -> bool {
    forall|i: int| 0 <= i < states.len() - 1 ==> #[trigger] is_accepted_step_at(states, i)
}

/// Along any history of taken attestations the last timestamp is strictly
/// increasing: a later state has a later timestamp than every earlier one.
pub proof fn lemma_history_timestamps_increase(
    states: Seq<NftEvolutionAccountView>,
    earlier: int,
    later: int,
)
    requires
        is_accepted_history(states),
        0 <= earlier < later < states.len(),
    ensures
        states[earlier].last_processed_timestamp < states[later].last_processed_timestamp,
    decreases later - earlier,
{
    let before = later - 1;
    assert(is_accepted_step_at(states, before));
    let (attestation, verdict, policy) = choose|
        attestation: OracleDataAccountView,
        verdict: Result<(), AiNftError>,
        policy: EvolutionPolicy,
    |
        #[trigger] states[before].spec_apply_attestation(attestation, verdict, policy) == Ok::<
            NftEvolutionAccountView,
            AiNftError,
        >(states[before + 1]);
    lemma_accepted_attestation_advances(states[before], attestation, verdict, policy);
    if earlier < before {
        lemma_history_timestamps_increase(states, earlier, before);
    }
}

/// A forged attestation is reported as forged whether or not it is also
/// stale: the signature verdict is looked at before the timestamps.
pub proof fn lemma_forgery_is_reported_before_staleness(
    state: NftEvolutionAccountView,
    attestation: OracleDataAccountView,
    policy: EvolutionPolicy,
)
    ensures
        state.spec_apply_attestation(
            attestation,
            Err(AiNftError::OracleSignatureVerificationFailed),
            policy,
        ) == Err::<NftEvolutionAccountView, AiNftError>(
            AiNftError::OracleSignatureVerificationFailed,
        ),
{
}

} // verus!
