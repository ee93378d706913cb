//! The program's operations on record bytes, and the dispatch of an
//! instruction to them.
//!
//! An operation reads every record it needs, decides, and writes at most one
//! record, whole and last: a refusal leaves every byte as it was. The records
//! are taken as owned by the program and funded; whoever hands them in has
//! seen to that.

use crate::error::{AiNftError, ProcessError};
use crate::instruction::{AiNftInstruction, AiNftInstructionView};
use crate::policy::EvolutionPolicy;
use crate::signature::{spec_verify_oracle_signature, verify_oracle_signature};
use crate::state::{
    ConfigAccount, ConfigAccountView, NftEvolutionAccount, NftEvolutionAccountView,
    OracleDataAccount, OracleDataAccountView,
};
use crate::update::lemma_accepted_attestation_advances;
use vstd::prelude::*;
use vstd::slice::slice_to_vec;

verus! {

/// A record as the runtime hands it in: its address and its bytes.
#[derive(Debug, Clone, PartialEq, Eq)]
pub struct AccountRecord {
    /// The address of the record.
    pub key: [u8; 32],
    /// The bytes that the record holds.
    pub data: Vec<u8>,
}

/// A record, as plain values.
pub struct AccountRecordView {
    pub key: Seq<u8>,
    pub data: Seq<u8>,
}

impl AccountRecordView {
    /// The address has the width of a key.
    pub open spec fn well_formed(self) -> bool {
        self.key.len() == 32
    }
}

impl View for AccountRecord {
    type V = AccountRecordView;

    open spec fn view(&self) -> AccountRecordView {
        AccountRecordView { key: self.key@, data: self.data@ }
    }
}

impl DeepView for AccountRecord {
    type V = AccountRecordView;

    open spec fn deep_view(&self) -> AccountRecordView {
        self@
    }
}

/// The records after an operation that writes the record at `at`: that
/// record holds the new bytes under its old address, the others are as
/// before. A refusal is handed on.
pub open spec fn with_record_written(
    accounts: Seq<AccountRecordView>,
    at: int,
    outcome: Result<Seq<u8>, ProcessError>,
) -> Result<Seq<AccountRecordView>, ProcessError> {
    match outcome {
        Ok(data) => Ok(accounts.update(at, AccountRecordView { key: accounts[at].key, data })),
        Err(e) => Err(e),
    }
}

/// The program: its operations, and the dispatch of an instruction to them.
pub struct Processor;

impl Processor {
    /// What setting up the configuration record comes to: the new bytes of
    /// the record, or why it is refused.
    pub open spec fn spec_initialize_config(config_data: Seq<u8>, oracle_pubkey: Seq<u8>) -> Result<
        Seq<u8>,
        ProcessError,
    > {
        match ConfigAccountView::unpacked_exact(config_data) {
            None => Err(ProcessError::InvalidAccountData),
            Some(config) => if config.is_initialized {
                Err(ProcessError::Custom(AiNftError::AlreadyInitialized))
            } else {
                Ok(ConfigAccountView { is_initialized: true, oracle_pubkey }.packed())
            },
        }
    }

    /// What setting up a token's state record comes to: the new bytes of the
    /// record, or why it is refused.
    pub open spec fn spec_initialize_nft_state(state_data: Seq<u8>, nft_mint: Seq<u8>) -> Result<
        Seq<u8>,
        ProcessError,
    > {
        match NftEvolutionAccountView::unpacked_exact(state_data) {
            None => Err(ProcessError::InvalidAccountData),
            Some(state) => if state.is_initialized {
                Err(ProcessError::Custom(AiNftError::AlreadyInitialized))
            } else {
                Ok(
                    NftEvolutionAccountView {
                        is_initialized: true,
                        nft_mint,
                        last_processed_sentiment: 0,
                        last_processed_timestamp: 0,
                        evolution_points: 0,
                    }.packed(),
                )
            },
        }
    }

    /// What an update under the standard policy comes to.
    pub open spec fn spec_update_nft_state(
        state_data: Seq<u8>,
        oracle_data: Seq<u8>,
        config_data: Seq<u8>,
    ) -> Result<Seq<u8>, ProcessError> {
        Self::spec_update_with_policy(
            state_data,
            oracle_data,
            config_data,
            EvolutionPolicy::spec_standard(),
        )
    }

    /// What an update comes to: the new bytes of the state record, or why
    /// the update is refused. The checks come in this order, and the first
    /// that fails decides: the configuration record decodes and is set up;
    /// the state record decodes and is set up; the attestation decodes; its
    /// signature is the oracle's; it is fresh. Only then does the policy
    /// move the points.
    pub open spec fn spec_update_with_policy(
        state_data: Seq<u8>,
        oracle_data: Seq<u8>,
        config_data: Seq<u8>,
        policy: EvolutionPolicy,
    ) -> Result<Seq<u8>, ProcessError> {
        match ConfigAccountView::unpacked_exact(config_data) {
            None => Err(ProcessError::InvalidAccountData),
            Some(config) => if !config.is_initialized {
                Err(ProcessError::Custom(AiNftError::NotInitialized))
            } else {
                match NftEvolutionAccountView::unpacked_exact(state_data) {
                    None => Err(ProcessError::InvalidAccountData),
                    Some(state) => if !state.is_initialized {
                        Err(ProcessError::Custom(AiNftError::NotInitialized))
                    } else {
                        match OracleDataAccountView::unpacked_exact(oracle_data) {
                            None => Err(ProcessError::InvalidAccountData),
                            Some(attestation) => match state.spec_apply_attestation(
                                attestation,
                                spec_verify_oracle_signature(attestation, config.oracle_pubkey),
                                policy,
                            ) {
                                Ok(next) => Ok(next.packed()),
                                Err(e) => Err(ProcessError::Custom(e)),
                            },
                        }
                    },
                }
            },
        }
    }

    /// What an instruction comes to on a list of records: the records after
    /// it, or why it is refused.
    pub open spec fn spec_process(
        accounts: Seq<AccountRecordView>,
        instruction_data: Seq<u8>,
    ) -> Result<Seq<AccountRecordView>, ProcessError> {
        match AiNftInstructionView::unpacked(instruction_data) {
            None => Err(ProcessError::InvalidInstructionData),
            Some(AiNftInstructionView::InitializeConfig { oracle_pubkey }) => if accounts.len() < 4 {
                Err(ProcessError::NotEnoughAccountKeys)
            } else {
                with_record_written(
                    accounts,
                    1,
                    Self::spec_initialize_config(accounts[1].data, oracle_pubkey),
                )
            },
            Some(AiNftInstructionView::InitializeNftState) => if accounts.len() < 5 {
                Err(ProcessError::NotEnoughAccountKeys)
            } else {
                with_record_written(
                    accounts,
                    1,
                    Self::spec_initialize_nft_state(accounts[1].data, accounts[2].key),
                )
            },
            Some(AiNftInstructionView::UpdateNftState) => if accounts.len() < 4 {
                Err(ProcessError::NotEnoughAccountKeys)
            } else {
                with_record_written(
                    accounts,
                    1,
                    Self::spec_update_nft_state(
                        accounts[1].data,
                        accounts[2].data,
                        accounts[3].data,
                    ),
                )
            },
        }
    }

    /// Decodes the instruction and carries it out on the records it names by
    /// position. Only the record at position 1 is ever written, and only
    /// when the instruction succeeds.
    pub fn process(accounts: &mut Vec<AccountRecord>, instruction_data: &[u8]) -> (r: Result<
        (),
        ProcessError,
    >)
        ensures
            match Self::spec_process(old(accounts).deep_view(), instruction_data@) {
                Ok(after) => r is Ok && final(accounts).deep_view() == after,
                Err(e) => r == Err::<(), ProcessError>(e) && final(accounts).deep_view() == old(
                    accounts,
                ).deep_view(),
            },
    {
        let instruction = match AiNftInstruction::try_from_slice(instruction_data) {
            Ok(instruction) => instruction,
            Err(e) => {
                return Err(e);
            },
        };
        match instruction {
            AiNftInstruction::InitializeConfig { oracle_pubkey } => {
                if accounts.len() < 4 {
                    return Err(ProcessError::NotEnoughAccountKeys);
                }
                let config: &mut AccountRecord = &mut accounts[1];
                let r = Self::process_initialize_config(config.data.as_mut_slice(), oracle_pubkey);
                assert(accounts.deep_view() =~= old(accounts).deep_view().update(1, accounts[1]@));
                r
            },
            AiNftInstruction::InitializeNftState => {
                if accounts.len() < 5 {
                    return Err(ProcessError::NotEnoughAccountKeys);
                }
                let nft_mint: [u8; 32] = accounts[2].key;
                let state: &mut AccountRecord = &mut accounts[1];
                let r = Self::process_initialize_nft_state(state.data.as_mut_slice(), nft_mint);
                assert(accounts.deep_view() =~= old(accounts).deep_view().update(1, accounts[1]@));
                r
            },
            AiNftInstruction::UpdateNftState => {
                if accounts.len() < 4 {
                    return Err(ProcessError::NotEnoughAccountKeys);
                }
                let oracle_data: Vec<u8> = slice_to_vec(accounts[2].data.as_slice());
                let config_data: Vec<u8> = slice_to_vec(accounts[3].data.as_slice());
                let state: &mut AccountRecord = &mut accounts[1];
                let r = Self::process_update_nft_state(
                    state.data.as_mut_slice(),
                    oracle_data.as_slice(),
                    config_data.as_slice(),
                );
                assert(accounts.deep_view() =~= old(accounts).deep_view().update(1, accounts[1]@));
                r
            },
        }
    }

    /// Sets up the configuration record with the oracle's key. A record that
    /// is already set up is refused and keeps its key.
    pub fn process_initialize_config(config_data: &mut [u8], oracle_pubkey: [u8; 32]) -> (r: Result<
        (),
        ProcessError,
    >)
        ensures
            match Self::spec_initialize_config(old(config_data)@, oracle_pubkey@) {
                Ok(after) => r is Ok && final(config_data)@ == after,
                Err(e) => r == Err::<(), ProcessError>(e) && final(config_data)@ == old(
                    config_data,
                )@,
            },
    {
        let config = match ConfigAccount::unpack_unchecked(config_data) {
            Ok(config) => config,
            Err(e) => {
                return Err(e);
            },
        };
        if config.is_initialized() {
            return Err(ProcessError::Custom(AiNftError::AlreadyInitialized));
        }
        ConfigAccount::pack(ConfigAccount { is_initialized: true, oracle_pubkey }, config_data)
    }

    /// Sets up the state record of the token with the given mint: nothing
    /// seen yet, no points. A record that is already set up is refused and
    /// keeps what it holds.
    pub fn process_initialize_nft_state(state_data: &mut [u8], nft_mint: [u8; 32]) -> (r: Result<
        (),
        ProcessError,
    >)
        ensures
            match Self::spec_initialize_nft_state(old(state_data)@, nft_mint@) {
                Ok(after) => r is Ok && final(state_data)@ == after,
                Err(e) => r == Err::<(), ProcessError>(e) && final(state_data)@ == old(
                    state_data,
                )@,
            },
    {
        let state = match NftEvolutionAccount::unpack_unchecked(state_data) {
            Ok(state) => state,
            Err(e) => {
                return Err(e);
            },
        };
        if state.is_initialized() {
            return Err(ProcessError::Custom(AiNftError::AlreadyInitialized));
        }
        NftEvolutionAccount::pack(
            NftEvolutionAccount {
                is_initialized: true,
                nft_mint,
                last_processed_sentiment: 0,
                last_processed_timestamp: 0,
                evolution_points: 0,
            },
            state_data,
        )
    }

    /// Takes the attestation in `oracle_data` into the state record under
    /// the standard policy, if it is signed by the oracle of the
    /// configuration record and newer than what the state has seen.
    pub fn process_update_nft_state(
        state_data: &mut [u8],
        oracle_data: &[u8],
        config_data: &[u8],
    ) -> (r: Result<(), ProcessError>)
        ensures
            match Self::spec_update_nft_state(old(state_data)@, oracle_data@, config_data@) {
                Ok(after) => r is Ok && final(state_data)@ == after,
                Err(e) => r == Err::<(), ProcessError>(e) && final(state_data)@ == old(
                    state_data,
                )@,
            },
    {
        let policy = EvolutionPolicy::standard();
        Self::process_update_with_policy(state_data, oracle_data, config_data, &policy)
    }

    /// Takes the attestation in `oracle_data` into the state record under
    /// the given policy, if it is signed by the oracle of the configuration
    /// record and newer than what the state has seen. The new state is
    /// worked out aside and written in one piece at the end.
    pub fn process_update_with_policy(
        state_data: &mut [u8],
        oracle_data: &[u8],
        config_data: &[u8],
        policy: &EvolutionPolicy,
    ) -> (r: Result<(), ProcessError>)
        ensures
            match Self::spec_update_with_policy(
                old(state_data)@,
                oracle_data@,
                config_data@,
                *policy,
            ) {
                Ok(after) => r is Ok && final(state_data)@ == after,
                Err(e) => r == Err::<(), ProcessError>(e) && final(state_data)@ == old(
                    state_data,
                )@,
            },
    {
        let config = match ConfigAccount::unpack_unchecked(config_data) {
            Ok(config) => config,
            Err(e) => {
                return Err(e);
            },
        };
        if !config.is_initialized() {
            return Err(ProcessError::Custom(AiNftError::NotInitialized));
        }
        let state = match NftEvolutionAccount::unpack_unchecked(state_data) {
            Ok(state) => state,
            Err(e) => {
                return Err(e);
            },
        };
        if !state.is_initialized() {
            return Err(ProcessError::Custom(AiNftError::NotInitialized));
        }
        let attestation = match OracleDataAccount::unpack_unchecked(oracle_data) {
            Ok(attestation) => attestation,
            Err(e) => {
                return Err(e);
            },
        };
        let verdict = verify_oracle_signature(&attestation, &config.oracle_pubkey);
        match state.apply_attestation(&attestation, verdict, policy) {
            Ok(next) => NftEvolutionAccount::pack(next, state_data),
            Err(e) => Err(ProcessError::Custom(e)),
        }
    }
}

/// The timestamp of the last attestation that a state record has taken in.
pub open spec fn last_timestamp_of(state_data: Seq<u8>) -> i64 {
    NftEvolutionAccountView::unpacked_exact(state_data)->Some_0.last_processed_timestamp
}

/// Whether the record at `i` becomes the record behind it by an update with
/// some attestation under some configuration and some policy.
pub open spec fn is_update_at(records: Seq<Seq<u8>>, i: int) -> bool {
    exists|oracle_data: Seq<u8>, config_data: Seq<u8>, policy: EvolutionPolicy| #[trigger]
        Processor::spec_update_with_policy(records[i], oracle_data, config_data, policy) == Ok::<
            Seq<u8>,
            ProcessError,
        >(records[i + 1])
}

/// Whether each of `records` but the first is what an accepted update made
/// of its predecessor.
pub open spec fn is_update_history(records: Seq<Seq<u8>>) -> bool {
    forall|i: int| 0 <= i < records.len() - 1 ==> #[trigger] is_update_at(records, i)
}

impl Processor {
    /// A configuration record is set up at most once: after a first
    /// success, every further attempt is refused as already initialized,
    /// whatever key it brings.
    pub proof fn lemma_config_is_initialized_once(
        config_data: Seq<u8>,
        oracle_pubkey: Seq<u8>,
        other_pubkey: Seq<u8>,
    )
        requires
            oracle_pubkey.len() == 32,
            Self::spec_initialize_config(config_data, oracle_pubkey) is Ok,
        ensures
            Self::spec_initialize_config(
                Self::spec_initialize_config(config_data, oracle_pubkey)->Ok_0,
                other_pubkey,
            ) == Err::<Seq<u8>, ProcessError>(ProcessError::Custom(AiNftError::AlreadyInitialized)),
    {
        ConfigAccountView { is_initialized: true, oracle_pubkey }.lemma_round_trip();
    }

    /// A state record is set up at most once: after a first success, every
    /// further attempt is refused as already initialized, whatever mint it
    /// brings.
    pub proof fn lemma_nft_state_is_initialized_once(
        state_data: Seq<u8>,
        nft_mint: Seq<u8>,
        other_mint: Seq<u8>,
    )
        requires
            nft_mint.len() == 32,
            Self::spec_initialize_nft_state(state_data, nft_mint) is Ok,
        ensures
            Self::spec_initialize_nft_state(
                Self::spec_initialize_nft_state(state_data, nft_mint)->Ok_0,
                other_mint,
            ) == Err::<Seq<u8>, ProcessError>(ProcessError::Custom(AiNftError::AlreadyInitialized)),
    {
        NftEvolutionAccountView {
            is_initialized: true,
            nft_mint,
            last_processed_sentiment: 0,
            last_processed_timestamp: 0,
            evolution_points: 0,
        }.lemma_round_trip();
    }

    /// A record that was set up starts with nothing seen and no points, and
    /// is bound to the mint it was set up with.
    pub proof fn lemma_initialized_nft_state_is_blank(state_data: Seq<u8>, nft_mint: Seq<u8>)
        requires
            nft_mint.len() == 32,
            Self::spec_initialize_nft_state(state_data, nft_mint) is Ok,
        ensures
            NftEvolutionAccountView::unpacked_exact(
                Self::spec_initialize_nft_state(state_data, nft_mint)->Ok_0,
            ) == Some(
                NftEvolutionAccountView {
                    is_initialized: true,
                    nft_mint,
                    last_processed_sentiment: 0,
                    last_processed_timestamp: 0,
                    evolution_points: 0,
                },
            ),
    {
        NftEvolutionAccountView {
            is_initialized: true,
            nft_mint,
            last_processed_sentiment: 0,
            last_processed_timestamp: 0,
            evolution_points: 0,
        }.lemma_round_trip();
    }

    /// What an accepted update writes: a state record that decodes, is still
    /// set up for the same mint, remembers the attestation's score and
    /// timestamp, holds the points that the policy makes of the old ones, and
    /// has a strictly later timestamp than before.
    pub proof fn lemma_update_advances(
        state_data: Seq<u8>,
        oracle_data: Seq<u8>,
        config_data: Seq<u8>,
        policy: EvolutionPolicy,
    )
        requires
            Self::spec_update_with_policy(state_data, oracle_data, config_data, policy) is Ok,
        ensures
            NftEvolutionAccountView::unpacked_exact(state_data) is Some,
            OracleDataAccountView::unpacked_exact(oracle_data) is Some,
            ({
                let before = NftEvolutionAccountView::unpacked_exact(state_data)->Some_0;
                let attestation = OracleDataAccountView::unpacked_exact(oracle_data)->Some_0;
                let after = Self::spec_update_with_policy(
                    state_data,
                    oracle_data,
                    config_data,
                    policy,
                )->Ok_0;
                &&& NftEvolutionAccountView::unpacked_exact(after) == Some(
                    NftEvolutionAccountView {
                        is_initialized: true,
                        nft_mint: before.nft_mint,
                        last_processed_sentiment: attestation.sentiment_score,
                        last_processed_timestamp: attestation.timestamp,
                        evolution_points: policy.spec_apply(
                            attestation.sentiment_score,
                            before.evolution_points,
                        ),
                    },
                )
                &&& last_timestamp_of(after) > last_timestamp_of(state_data)
            }),
    {
        let config = ConfigAccountView::unpacked_exact(config_data)->Some_0;
        let before = NftEvolutionAccountView::unpacked_exact(state_data)->Some_0;
        let attestation = OracleDataAccountView::unpacked_exact(oracle_data)->Some_0;
        let verdict = spec_verify_oracle_signature(attestation, config.oracle_pubkey);
        lemma_accepted_attestation_advances(before, attestation, verdict, policy);
        before.spec_apply_attestation(attestation, verdict, policy)->Ok_0.lemma_round_trip();
    }

    /// The same attestation is taken in at most once: after an accepted
    /// update, the same bytes under the same configuration are refused as
    /// already processed, whatever the policy.
    pub proof fn lemma_update_refuses_repetition(
        state_data: Seq<u8>,
        oracle_data: Seq<u8>,
        config_data: Seq<u8>,
        policy: EvolutionPolicy,
        again: EvolutionPolicy,
    )
        requires
            Self::spec_update_with_policy(state_data, oracle_data, config_data, policy) is Ok,
        ensures
            Self::spec_update_with_policy(
                Self::spec_update_with_policy(state_data, oracle_data, config_data, policy)->Ok_0,
                oracle_data,
                config_data,
                again,
            ) == Err::<Seq<u8>, ProcessError>(ProcessError::Custom(AiNftError::DataAlreadyProcessed)),
    {
        Self::lemma_update_advances(state_data, oracle_data, config_data, policy);
    }

    /// Along any history of accepted updates of a state record the last
    /// timestamp is strictly increasing: a later record has a later
    /// timestamp than every earlier one.
    pub proof fn lemma_update_history_timestamps_increase(
        records: Seq<Seq<u8>>,
        earlier: int,
        later: int,
    )
        requires
            is_update_history(records),
            0 <= earlier < later < records.len(),
        ensures
            last_timestamp_of(records[earlier]) < last_timestamp_of(records[later]),
        decreases later - earlier,
    {
        let before = later - 1;
        assert(is_update_at(records, before));
        let (oracle_data, config_data, policy) = choose|
            oracle_data: Seq<u8>,
            config_data: Seq<u8>,
            policy: EvolutionPolicy,
        | #[trigger]
            Self::spec_update_with_policy(records[before], oracle_data, config_data, policy) == Ok::<
                Seq<u8>,
                ProcessError,
            >(records[before + 1]);
        Self::lemma_update_advances(records[before], oracle_data, config_data, policy);
        if earlier < before {
            Self::lemma_update_history_timestamps_increase(records, earlier, before);
        }
    }

    /// An attestation whose signature is not the oracle's is reported as
    /// such, whether or not it is also stale: once the three records decode
    /// and the two that must be set up are, nothing but the signature
    /// decides.
    pub proof fn lemma_update_reports_forgery_before_staleness(
        state_data: Seq<u8>,
        oracle_data: Seq<u8>,
        config_data: Seq<u8>,
        policy: EvolutionPolicy,
    )
        requires
            ConfigAccountView::unpacked_exact(config_data) matches Some(config)
                && config.is_initialized,
            NftEvolutionAccountView::unpacked_exact(state_data) matches Some(state)
                && state.is_initialized,
            OracleDataAccountView::unpacked_exact(oracle_data) matches Some(attestation)
                && spec_verify_oracle_signature(
                attestation,
                ConfigAccountView::unpacked_exact(config_data)->Some_0.oracle_pubkey,
            ) is Err,
        ensures
            Self::spec_update_with_policy(state_data, oracle_data, config_data, policy) == Err::<
                Seq<u8>,
                ProcessError,
            >(ProcessError::Custom(AiNftError::OracleSignatureVerificationFailed)),
    {
    }

    /// Once set up, a configuration record is never written again: no
    /// instruction succeeds with it in the position that instructions write.
    pub proof fn lemma_initialized_config_is_never_rewritten(
        accounts: Seq<AccountRecordView>,
        instruction_data: Seq<u8>,
    )
        requires
            accounts.len() > 1,
            ConfigAccountView::unpacked_exact(accounts[1].data) matches Some(config)
                && config.is_initialized,
        ensures
            Self::spec_process(accounts, instruction_data) is Err,
    {
    }

    /// Once set up, a state record changes only by taking in an attestation:
    /// every instruction that succeeds on it moves its last timestamp
    /// strictly forward and leaves it set up for the same mint.
    pub proof fn lemma_initialized_state_only_advances(
        accounts: Seq<AccountRecordView>,
        instruction_data: Seq<u8>,
    )
        requires
            accounts.len() > 1,
            NftEvolutionAccountView::unpacked_exact(accounts[1].data) matches Some(state)
                && state.is_initialized,
            Self::spec_process(accounts, instruction_data) is Ok,
        ensures
            ({
                let before = NftEvolutionAccountView::unpacked_exact(accounts[1].data)->Some_0;
                let written = Self::spec_process(accounts, instruction_data)->Ok_0[1].data;
                &&& NftEvolutionAccountView::unpacked_exact(written) matches Some(after)
                    && after.is_initialized && after.nft_mint == before.nft_mint
                    && after.last_processed_timestamp > before.last_processed_timestamp
            }),
    {
        Self::lemma_update_advances(
            accounts[1].data,
            accounts[2].data,
            accounts[3].data,
            EvolutionPolicy::spec_standard(),
        );
    }

    /// Sent a second time on the records that the first left, an instruction
    /// that succeeded is refused: an update as already processed, a set-up as
    /// already initialized.
    pub proof fn lemma_process_refuses_repetition(
        accounts: Seq<AccountRecordView>,
        instruction_data: Seq<u8>,
    )
        requires
            forall|i: int| 0 <= i < accounts.len() ==> #[trigger] accounts[i].well_formed(),
            Self::spec_process(accounts, instruction_data) is Ok,
        ensures
            Self::spec_process(
                Self::spec_process(accounts, instruction_data)->Ok_0,
                instruction_data,
            ) == Err::<Seq<AccountRecordView>, ProcessError>(
                ProcessError::Custom(
                    if AiNftInstructionView::unpacked(instruction_data)
                        == Some(AiNftInstructionView::UpdateNftState) {
                        AiNftError::DataAlreadyProcessed
                    } else {
                        AiNftError::AlreadyInitialized
                    },
                ),
            ),
    {
        match AiNftInstructionView::unpacked(instruction_data)->Some_0 {
            AiNftInstructionView::InitializeConfig { oracle_pubkey } => {
                Self::lemma_config_is_initialized_once(
                    accounts[1].data,
                    oracle_pubkey,
                    oracle_pubkey,
                );
            },
            AiNftInstructionView::InitializeNftState => {
                assert(accounts[2].well_formed());
                Self::lemma_nft_state_is_initialized_once(
                    accounts[1].data,
                    accounts[2].key,
                    accounts[2].key,
                );
            },
            AiNftInstructionView::UpdateNftState => {
                Self::lemma_update_refuses_repetition(
                    accounts[1].data,
                    accounts[2].data,
                    accounts[3].data,
                    EvolutionPolicy::spec_standard(),
                    EvolutionPolicy::spec_standard(),
                );
            },
        }
    }

    /// An instruction touches nothing but the bytes of the record at
    /// position 1: the list keeps its length, every record keeps its
    /// address, and every other record keeps its bytes.
    pub proof fn lemma_process_writes_one_record(
        accounts: Seq<AccountRecordView>,
        instruction_data: Seq<u8>,
    )
        requires
            Self::spec_process(accounts, instruction_data) is Ok,
        ensures
            Self::spec_process(accounts, instruction_data)->Ok_0.len() == accounts.len(),
            forall|i: int|
                0 <= i < accounts.len() ==> (#[trigger] Self::spec_process(
                    accounts,
                    instruction_data,
                )->Ok_0[i]).key == accounts[i].key,
            forall|i: int|
                0 <= i < accounts.len() && i != 1 ==> #[trigger] Self::spec_process(
                    accounts,
                    instruction_data,
                )->Ok_0[i] == accounts[i],
    {
    }
}

} // verus!
