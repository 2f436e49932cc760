//! Datasets: their metadata, who contributed what share, where they stand in
//! their lifecycle, and the reputation of those who register them.
//!
//! A dataset is registered as active. From there the only moves are: the admin
//! flags it for review, and reinstates it; its owner or the admin deprecates
//! it, for good. Its content can change only while it is active, so what is under
//! review cannot be swapped.

use crate::governance::{Governance, GovernanceError, GovernanceModel, GovernanceOutcome};
use crate::host::{accept, copy_text, event, keep, refuse, view_opt, view_result, views, zero_hash,
    Address, Context, ContextModel, EffectModel, Effects, Hash32, KeyModel, Outcome, StorageKey,
    Value, ValueModel};
use crate::table::{Key, Table};
use crate::text::{numbered, numbered_text};
use vstd::prelude::*;

pub mod calls;
pub mod laws;

verus! {

/// What the contributor shares of a dataset add up to, in basis points.
pub const TOTAL_BPS: u32 = 10_000;

/// What one registration adds to a reputation, and the most it can reach.
pub const REPUTATION_STEP: u32 = 50;

pub const REPUTATION_MAX: u32 = 1000;

/// Why a call is refused.
#[derive(Clone, Copy, Debug, PartialEq, Eq, PartialOrd, Ord, Structural)]
pub enum Error {
    AlreadyInitialized,
    NotInitialized,
    NoAdminProposalPending,
    MetadataHashCannotBeZero,
    DatasetWithThisMetadataHashIsAlreadyRegistered,
    DatasetMustHaveAtLeastOneContributor,
    ContributorShareMustBeGreaterThanZero,
    DuplicateContributorAddress,
    ContributorSharesOverflow,
    ContributorSharesMustSumTo10000,
    NoReputationData,
    DatasetNotFound,
    DatasetMustBeActiveToUpdateMetadata,
    MetadataHashUnchanged,
    OnlyAnActiveDatasetCanBeFlaggedForReview,
    OnlyADatasetUnderReviewCanBeReinstated,
    OnlyTheDatasetOwnerOrAdminCanDeprecate,
    DatasetIsAlreadyDeprecated,
    /// A write was asked of a frozen contract.
    ContractPaused,
    /// `pause` was asked of a contract that is frozen.
    AlreadyPaused,
    /// `unpause` was asked of a contract that is not frozen.
    NotPaused,
}

impl Error {
    /// The number under which callers see the error.
    pub open spec fn spec_code(self) -> u32 {
        match self {
            Error::AlreadyInitialized => 1,
            Error::NotInitialized => 2,
            Error::NoAdminProposalPending => 3,
            Error::MetadataHashCannotBeZero => 4,
            Error::DatasetWithThisMetadataHashIsAlreadyRegistered => 5,
            Error::DatasetMustHaveAtLeastOneContributor => 6,
            Error::ContributorShareMustBeGreaterThanZero => 7,
            Error::DuplicateContributorAddress => 8,
            Error::ContributorSharesOverflow => 9,
            Error::ContributorSharesMustSumTo10000 => 10,
            Error::NoReputationData => 11,
            Error::DatasetNotFound => 12,
            Error::DatasetMustBeActiveToUpdateMetadata => 13,
            Error::MetadataHashUnchanged => 14,
            Error::OnlyAnActiveDatasetCanBeFlaggedForReview => 15,
            Error::OnlyADatasetUnderReviewCanBeReinstated => 16,
            Error::OnlyTheDatasetOwnerOrAdminCanDeprecate => 17,
            Error::DatasetIsAlreadyDeprecated => 18,
            Error::ContractPaused => 19,
            Error::AlreadyPaused => 20,
            Error::NotPaused => 21,
        }
    }

    /// What the error says.
    pub open spec fn spec_message(self) -> Seq<char> {
        match self {
            Error::AlreadyInitialized => "already initialized"@,
            Error::NotInitialized => "not initialized"@,
            Error::NoAdminProposalPending => "no admin proposal pending"@,
            Error::MetadataHashCannotBeZero => "metadata hash cannot be zero"@,
            Error::DatasetWithThisMetadataHashIsAlreadyRegistered => "dataset with this metadata hash is already registered"@,
            Error::DatasetMustHaveAtLeastOneContributor => "dataset must have at least one contributor"@,
            Error::ContributorShareMustBeGreaterThanZero => "contributor share must be greater than zero"@,
            Error::DuplicateContributorAddress => "duplicate contributor address"@,
            Error::ContributorSharesOverflow => "contributor shares overflow"@,
            Error::ContributorSharesMustSumTo10000 => "contributor shares must sum to 10000 bps"@,
            Error::NoReputationData => "no reputation data"@,
            Error::DatasetNotFound => "dataset not found"@,
            Error::DatasetMustBeActiveToUpdateMetadata => "dataset must be active to update metadata"@,
            Error::MetadataHashUnchanged => "metadata hash unchanged"@,
            Error::OnlyAnActiveDatasetCanBeFlaggedForReview => "only an active dataset can be flagged for review"@,
            Error::OnlyADatasetUnderReviewCanBeReinstated => "only a dataset under review can be reinstated"@,
            Error::OnlyTheDatasetOwnerOrAdminCanDeprecate => "only the dataset owner or admin can deprecate"@,
            Error::DatasetIsAlreadyDeprecated => "dataset is already deprecated"@,
            Error::ContractPaused => "contract paused"@,
            Error::AlreadyPaused => "already paused"@,
            Error::NotPaused => "not paused"@,
        }
    }

    /// The error by which this contract reports one of its admin's side.
    pub open spec fn of_governance(error: GovernanceError) -> Error {
        match error {
            GovernanceError::AlreadyInitialized => Error::AlreadyInitialized,
            GovernanceError::NotInitialized => Error::NotInitialized,
            GovernanceError::NoAdminProposalPending => Error::NoAdminProposalPending,
            GovernanceError::AlreadyPaused => Error::AlreadyPaused,
            GovernanceError::NotPaused => Error::NotPaused,
        }
    }

    /// The number under which callers see the error.
    pub fn code(&self) -> (r: u32)
        ensures
            r == self.spec_code(),
    {
        match self {
            Error::AlreadyInitialized => 1,
            Error::NotInitialized => 2,
            Error::NoAdminProposalPending => 3,
            Error::MetadataHashCannotBeZero => 4,
            Error::DatasetWithThisMetadataHashIsAlreadyRegistered => 5,
            Error::DatasetMustHaveAtLeastOneContributor => 6,
            Error::ContributorShareMustBeGreaterThanZero => 7,
            Error::DuplicateContributorAddress => 8,
            Error::ContributorSharesOverflow => 9,
            Error::ContributorSharesMustSumTo10000 => 10,
            Error::NoReputationData => 11,
            Error::DatasetNotFound => 12,
            Error::DatasetMustBeActiveToUpdateMetadata => 13,
            Error::MetadataHashUnchanged => 14,
            Error::OnlyAnActiveDatasetCanBeFlaggedForReview => 15,
            Error::OnlyADatasetUnderReviewCanBeReinstated => 16,
            Error::OnlyTheDatasetOwnerOrAdminCanDeprecate => 17,
            Error::DatasetIsAlreadyDeprecated => 18,
            Error::ContractPaused => 19,
            Error::AlreadyPaused => 20,
            Error::NotPaused => 21,
        }
    }

    /// What the error says.
    pub fn message(&self) -> (r: &'static str)
        ensures
            r@ == self.spec_message(),
    {
        match self {
            Error::AlreadyInitialized => "already initialized",
            Error::NotInitialized => "not initialized",
            Error::NoAdminProposalPending => "no admin proposal pending",
            Error::MetadataHashCannotBeZero => "metadata hash cannot be zero",
            Error::DatasetWithThisMetadataHashIsAlreadyRegistered => "dataset with this metadata hash is already registered",
            Error::DatasetMustHaveAtLeastOneContributor => "dataset must have at least one contributor",
            Error::ContributorShareMustBeGreaterThanZero => "contributor share must be greater than zero",
            Error::DuplicateContributorAddress => "duplicate contributor address",
            Error::ContributorSharesOverflow => "contributor shares overflow",
            Error::ContributorSharesMustSumTo10000 => "contributor shares must sum to 10000 bps",
            Error::NoReputationData => "no reputation data",
            Error::DatasetNotFound => "dataset not found",
            Error::DatasetMustBeActiveToUpdateMetadata => "dataset must be active to update metadata",
            Error::MetadataHashUnchanged => "metadata hash unchanged",
            Error::OnlyAnActiveDatasetCanBeFlaggedForReview => "only an active dataset can be flagged for review",
            Error::OnlyADatasetUnderReviewCanBeReinstated => "only a dataset under review can be reinstated",
            Error::OnlyTheDatasetOwnerOrAdminCanDeprecate => "only the dataset owner or admin can deprecate",
            Error::DatasetIsAlreadyDeprecated => "dataset is already deprecated",
            Error::ContractPaused => "contract paused",
            Error::AlreadyPaused => "already paused",
            Error::NotPaused => "not paused",
        }
    }
}

fn lift(answer: Result<(), GovernanceError>) -> (r: Result<(), Error>)
    ensures
        r == lifted_answer(answer),
{
    match answer {
        Ok(_) => Ok(()),
        Err(GovernanceError::AlreadyInitialized) => Err(Error::AlreadyInitialized),
        Err(GovernanceError::NotInitialized) => Err(Error::NotInitialized),
        Err(GovernanceError::NoAdminProposalPending) => Err(Error::NoAdminProposalPending),
        Err(GovernanceError::AlreadyPaused) => Err(Error::AlreadyPaused),
        Err(GovernanceError::NotPaused) => Err(Error::NotPaused),
    }
}

/// An answer of the admin's side, as this contract reports it.
pub open spec fn lifted_answer(answer: Result<(), GovernanceError>) -> Result<(), Error> {
    match answer {
        Ok(_) => Ok(()),
        Err(e) => Err(Error::of_governance(e)),
    }
}

/// Where a dataset stands.
#[derive(Clone, Copy, Debug, PartialEq, Eq, Structural)]
pub enum DatasetState {
    Active,
    Deprecated,
    UnderReview,
}

/// A contributor's share of a dataset.
#[derive(Debug, PartialEq, Eq)]
pub struct ContributorShare {
    pub address: Address,
    pub share_bps: u32,
}

#[verifier::ext_equal]
pub struct ShareModel {
    pub address: Seq<char>,
    pub share_bps: u32,
}

impl View for ContributorShare {
    type V = ShareModel;

    open spec fn view(&self) -> ShareModel {
        ShareModel { address: self.address@, share_bps: self.share_bps }
    }
}

impl Clone for ContributorShare {
    fn clone(&self) -> (r: Self)
        ensures
            r@ == self@,
    {
        ContributorShare { address: self.address.clone(), share_bps: self.share_bps }
    }
}

/// A registered dataset.
#[derive(Debug, PartialEq, Eq)]
pub struct Dataset {
    pub id: String,
    pub owner: Address,
    pub language_code: String,
    pub name: String,
    pub metadata_hash: Hash32,
    pub version: u32,
    pub state: DatasetState,
    pub contributors: Vec<ContributorShare>,
    pub created_ledger: u32,
    pub sample_count: u32,
    pub duration_seconds: u32,
    /// The commission that the dataset fulfils, if any.
    pub commission_id: Option<String>,
}

#[verifier::ext_equal]
pub struct DatasetModel {
    pub id: Seq<char>,
    pub owner: Seq<char>,
    pub language_code: Seq<char>,
    pub name: Seq<char>,
    pub metadata_hash: Seq<u8>,
    pub version: u32,
    pub state: DatasetState,
    pub contributors: Seq<ShareModel>,
    pub created_ledger: u32,
    pub sample_count: u32,
    pub duration_seconds: u32,
    pub commission_id: Option<Seq<char>>,
}

impl View for Dataset {
    type V = DatasetModel;

    open spec fn view(&self) -> DatasetModel {
        DatasetModel {
            id: self.id@,
            owner: self.owner@,
            language_code: self.language_code@,
            name: self.name@,
            metadata_hash: self.metadata_hash@,
            version: self.version,
            state: self.state,
            contributors: views(self.contributors@),
            created_ledger: self.created_ledger,
            sample_count: self.sample_count,
            duration_seconds: self.duration_seconds,
            commission_id: view_opt(self.commission_id),
        }
    }
}

impl Clone for Dataset {
    fn clone(&self) -> (r: Self)
        ensures
            r@ == self@,
    {
        let contributors = self.contributors.clone();
        assert(views(contributors@) =~= views(self.contributors@));
        Dataset {
            id: self.id.clone(),
            owner: self.owner.clone(),
            language_code: self.language_code.clone(),
            name: self.name.clone(),
            metadata_hash: self.metadata_hash,
            version: self.version,
            state: self.state,
            contributors,
            created_ledger: self.created_ledger,
            sample_count: self.sample_count,
            duration_seconds: self.duration_seconds,
            commission_id: copy_text(&self.commission_id),
        }
    }
}

/// What is known of someone who registers datasets.
#[derive(Debug, PartialEq, Eq)]
pub struct ContributorReputation {
    pub address: Address,
    /// From 0 to 1000.
    pub reputation_score: u32,
    pub datasets_registered: u32,
    pub total_royalties_stroops: i128,
    pub quality_average: u32,
}

#[verifier::ext_equal]
pub struct ReputationModel {
    pub address: Seq<char>,
    pub reputation_score: u32,
    pub datasets_registered: u32,
    pub total_royalties_stroops: i128,
    pub quality_average: u32,
}

impl View for ContributorReputation {
    type V = ReputationModel;

    open spec fn view(&self) -> ReputationModel {
        ReputationModel {
            address: self.address@,
            reputation_score: self.reputation_score,
            datasets_registered: self.datasets_registered,
            total_royalties_stroops: self.total_royalties_stroops,
            quality_average: self.quality_average,
        }
    }
}

impl Clone for ContributorReputation {
    fn clone(&self) -> (r: Self)
        ensures
            r@ == self@,
    {
        ContributorReputation {
            address: self.address.clone(),
            reputation_score: self.reputation_score,
            datasets_registered: self.datasets_registered,
            total_royalties_stroops: self.total_royalties_stroops,
            quality_average: self.quality_average,
        }
    }
}

impl ReputationModel {
    /// Someone who registered nothing yet.
    pub open spec fn unknown(address: Seq<char>) -> Self {
        ReputationModel {
            address,
            reputation_score: 0,
            datasets_registered: 0,
            total_royalties_stroops: 0,
            quality_average: 0,
        }
    }

    /// Whether one more registration can be counted.
    pub open spec fn has_room(self) -> bool {
        self.datasets_registered < u32::MAX && self.reputation_score <= u32::MAX - REPUTATION_STEP
    }

    /// After one more registration.
    pub open spec fn raised(self) -> Self {
        ReputationModel {
            datasets_registered: (self.datasets_registered + 1) as u32,
            reputation_score: if self.reputation_score + REPUTATION_STEP > REPUTATION_MAX {
                REPUTATION_MAX
            } else {
                (self.reputation_score + REPUTATION_STEP) as u32
            },
            ..self
        }
    }
}

/// The shares of all contributors together.
pub open spec fn share_total(shares: Seq<ShareModel>) -> int
    decreases shares.len(),
{
    if shares.len() == 0 {
        0
    } else {
        share_total(shares.drop_last()) + shares.last().share_bps
    }
}

/// Whether the contributor at `at` is named again further on.
pub open spec fn named_again(shares: Seq<ShareModel>, at: int) -> bool {
    exists|j: int| at < j < shares.len() && (#[trigger] shares[j]).address == shares[at].address
}

/// What is wrong with `shares` from place `from` on: the first entry that is
/// empty, named again or takes the running total out of bounds, or else the
/// total itself.
pub open spec fn share_fault(shares: Seq<ShareModel>, from: int) -> Option<Error>
    decreases shares.len() - from,
{
    if from >= shares.len() {
        if share_total(shares) != TOTAL_BPS {
            Some(Error::ContributorSharesMustSumTo10000)
        } else {
            None
        }
    } else if shares[from].share_bps == 0 {
        Some(Error::ContributorShareMustBeGreaterThanZero)
    } else if named_again(shares, from) {
        Some(Error::DuplicateContributorAddress)
    } else if share_total(shares.take(from + 1)) > u32::MAX {
        Some(Error::ContributorSharesOverflow)
    } else {
        share_fault(shares, from + 1)
    }
}

/// What is wrong with `shares` as the contributors of a dataset.
pub open spec fn shares_fault(shares: Seq<ShareModel>) -> Option<Error> {
    if shares.len() == 0 {
        Some(Error::DatasetMustHaveAtLeastOneContributor)
    } else {
        share_fault(shares, 0)
    }
}

/// The registry contract.
#[derive(Clone, Debug)]
pub struct DatasetRegistry {
    pub governance: Governance,
    /// How many datasets were registered.
    pub count: u32,
    pub datasets: Table<String, Dataset>,
    /// Which dataset has which metadata hash.
    pub hashes: Table<Hash32, String>,
    pub reputations: Table<Address, ContributorReputation>,
}

#[verifier::ext_equal]
pub struct DatasetRegistryModel {
    pub governance: GovernanceModel,
    pub count: u32,
    pub datasets: Map<Seq<char>, DatasetModel>,
    pub hashes: Map<Seq<u8>, Seq<char>>,
    pub reputations: Map<Seq<char>, ReputationModel>,
}

impl View for DatasetRegistry {
    type V = DatasetRegistryModel;

    open spec fn view(&self) -> DatasetRegistryModel {
        DatasetRegistryModel {
            governance: self.governance@,
            count: self.count,
            datasets: self.datasets@,
            hashes: self.hashes@,
            reputations: self.reputations@,
        }
    }
}

pub type CallOutcome = Outcome<DatasetRegistryModel, (), Error>;

pub type RegisterOutcome = Outcome<DatasetRegistryModel, Seq<char>, Error>;

/// The id of the dataset numbered `n`.
pub open spec fn dataset_id(n: nat) -> Seq<char> {
    numbered_text("ds_"@, n)
}

/// What is registered.
#[verifier::ext_equal]
pub struct Entry {
    pub owner: Seq<char>,
    pub language_code: Seq<char>,
    pub name: Seq<char>,
    pub metadata_hash: Seq<u8>,
    pub contributors: Seq<ShareModel>,
    pub sample_count: u32,
    pub duration_seconds: u32,
    pub commission_id: Option<Seq<char>>,
}

impl DatasetRegistryModel {
    /// Before anyone initialized the contract.
    pub open spec fn fresh() -> Self {
        DatasetRegistryModel {
            governance: GovernanceModel::fresh(),
            count: 0,
            datasets: Map::empty(),
            hashes: Map::empty(),
            reputations: Map::empty(),
        }
    }

    /// What the admin's side answers, as an outcome of the contract.
    pub open spec fn governed(self, outcome: GovernanceOutcome) -> CallOutcome {
        Outcome {
            answer: lifted_answer(outcome.answer),
            state: DatasetRegistryModel { governance: outcome.state, ..self },
            effects: outcome.effects,
        }
    }

    /// The authorization that a request to the admin asks for, when the
    /// contract is not frozen.
    pub open spec fn admin_asked(self) -> Seq<EffectModel> {
        if self.governance.paused {
            seq![]
        } else {
            self.governance.admin_asked()
        }
    }

    pub open spec fn with_dataset(self, id: Seq<char>, dataset: DatasetModel) -> Self {
        DatasetRegistryModel { datasets: self.datasets.insert(id, dataset), ..self }
    }

    /// What is known of `address`, be it nothing.
    pub open spec fn reputation(self, address: Seq<char>) -> ReputationModel {
        if self.reputations.contains_key(address) {
            self.reputations[address]
        } else {
            ReputationModel::unknown(address)
        }
    }

    pub open spec fn initialize(self, admin: Seq<char>) -> CallOutcome {
        let outcome = self.governed(self.governance.initialize(admin));
        if outcome.answer is Ok {
            Outcome {
                state: DatasetRegistryModel { count: 0, ..outcome.state },
                effects: outcome.effects + seq![keep(KeyModel::Instance)],
                ..outcome
            }
        } else {
            outcome
        }
    }

    // Registration.

    pub open spec fn register_fault(self, entry: Entry) -> Option<Error> {
        if self.governance.paused {
            Some(Error::ContractPaused)
        } else if self.governance.admin is None {
            Some(Error::NotInitialized)
        } else if entry.metadata_hash == zero_hash() {
            Some(Error::MetadataHashCannotBeZero)
        } else if self.hashes.contains_key(entry.metadata_hash) {
            Some(Error::DatasetWithThisMetadataHashIsAlreadyRegistered)
        } else {
            shares_fault(entry.contributors)
        }
    }

    /// Whether the counters have room for one more dataset of `owner`.
    pub open spec fn has_room(self, owner: Seq<char>) -> bool {
        self.count < u32::MAX && self.reputation(owner).has_room()
    }

    /// The dataset that is registered next.
    pub open spec fn registered(self, ctx: ContextModel, entry: Entry) -> DatasetModel {
        DatasetModel {
            id: dataset_id((self.count + 1) as nat),
            owner: entry.owner,
            language_code: entry.language_code,
            name: entry.name,
            metadata_hash: entry.metadata_hash,
            version: 1,
            state: DatasetState::Active,
            contributors: entry.contributors,
            created_ledger: ctx.sequence,
            sample_count: entry.sample_count,
            duration_seconds: entry.duration_seconds,
            commission_id: entry.commission_id,
        }
    }

    pub open spec fn register(self, ctx: ContextModel, entry: Entry) -> RegisterOutcome {
        let asked = if self.governance.paused {
            seq![]
        } else {
            seq![EffectModel::Authorize(entry.owner)]
        };
        let id = dataset_id((self.count + 1) as nat);
        match self.register_fault(entry) {
            Some(e) => refuse(self, asked, e),
            None => accept(
                DatasetRegistryModel {
                    count: (self.count + 1) as u32,
                    datasets: self.datasets.insert(id, self.registered(ctx, entry)),
                    hashes: self.hashes.insert(entry.metadata_hash, id),
                    reputations: self.reputations.insert(
                        entry.owner,
                        self.reputation(entry.owner).raised(),
                    ),
                    ..self
                },
                asked + seq![
                    keep(KeyModel::Instance),
                    keep(KeyModel::Dataset(id)),
                    keep(KeyModel::HashIndex(entry.metadata_hash)),
                    keep(KeyModel::Reputation(entry.owner)),
                    event(
                        "dataset"@,
                        "created"@,
                        seq![
                            ValueModel::Text(id),
                            ValueModel::Account(entry.owner),
                            ValueModel::Text(entry.language_code),
                            ValueModel::U32(entry.sample_count),
                        ],
                    ),
                ],
                id,
            ),
        }
    }

    // Updates.

    pub open spec fn update_fault(self, id: Seq<char>, hash: Seq<u8>) -> Option<Error> {
        if self.governance.paused {
            Some(Error::ContractPaused)
        } else if !self.datasets.contains_key(id) {
            Some(Error::DatasetNotFound)
        } else if self.datasets[id].state != DatasetState::Active {
            Some(Error::DatasetMustBeActiveToUpdateMetadata)
        } else if hash == zero_hash() {
            Some(Error::MetadataHashCannotBeZero)
        } else if hash == self.datasets[id].metadata_hash {
            Some(Error::MetadataHashUnchanged)
        } else if self.hashes.contains_key(hash) {
            Some(Error::DatasetWithThisMetadataHashIsAlreadyRegistered)
        } else {
            None
        }
    }

    /// The new hash leads to the dataset from now on, and the old one is free.
    pub open spec fn update(self, id: Seq<char>, hash: Seq<u8>) -> CallOutcome {
        let ds = self.datasets[id];
        let asked = if self.governance.paused || !self.datasets.contains_key(id) {
            seq![]
        } else {
            seq![EffectModel::Authorize(ds.owner)]
        };
        let version = (ds.version + 1) as u32;
        match self.update_fault(id, hash) {
            Some(e) => refuse(self, asked, e),
            None => accept(
                DatasetRegistryModel {
                    datasets: self.datasets.insert(
                        id,
                        DatasetModel { metadata_hash: hash, version, ..ds },
                    ),
                    hashes: self.hashes.remove(ds.metadata_hash).insert(hash, id),
                    ..self
                },
                asked + seq![
                    keep(KeyModel::HashIndex(hash)),
                    keep(KeyModel::Instance),
                    keep(KeyModel::Dataset(id)),
                    event(
                        "dataset"@,
                        "updated"@,
                        seq![
                            ValueModel::Text(id),
                            ValueModel::Digest(hash),
                            ValueModel::U32(version),
                        ],
                    ),
                ],
                (),
            ),
        }
    }

    // The lifecycle.

    /// The outcome of a move to `state`, announced as `name`.
    pub open spec fn moved(
        self,
        id: Seq<char>,
        state: DatasetState,
        asked: Seq<EffectModel>,
        name: Seq<char>,
    ) -> CallOutcome {
        accept(
            self.with_dataset(id, DatasetModel { state, ..self.datasets[id] }),
            asked + seq![
                keep(KeyModel::Instance),
                keep(KeyModel::Dataset(id)),
                event("dataset"@, name, seq![ValueModel::Text(id)]),
            ],
            (),
        )
    }

    pub open spec fn flag(self, id: Seq<char>) -> CallOutcome {
        if self.governance.paused {
            refuse(self, seq![], Error::ContractPaused)
        } else if self.governance.admin is None {
            refuse(self, seq![], Error::NotInitialized)
        } else if !self.datasets.contains_key(id) {
            refuse(self, self.admin_asked(), Error::DatasetNotFound)
        } else if self.datasets[id].state != DatasetState::Active {
            refuse(self, self.admin_asked(), Error::OnlyAnActiveDatasetCanBeFlaggedForReview)
        } else {
            self.moved(id, DatasetState::UnderReview, self.admin_asked(), "flagged"@)
        }
    }

    pub open spec fn reinstate(self, id: Seq<char>) -> CallOutcome {
        if self.governance.paused {
            refuse(self, seq![], Error::ContractPaused)
        } else if self.governance.admin is None {
            refuse(self, seq![], Error::NotInitialized)
        } else if !self.datasets.contains_key(id) {
            refuse(self, self.admin_asked(), Error::DatasetNotFound)
        } else if self.datasets[id].state != DatasetState::UnderReview {
            refuse(self, self.admin_asked(), Error::OnlyADatasetUnderReviewCanBeReinstated)
        } else {
            self.moved(id, DatasetState::Active, self.admin_asked(), "reinstate"@)
        }
    }

    pub open spec fn deprecate_fault(self, id: Seq<char>, caller: Seq<char>) -> Option<Error> {
        if self.governance.paused {
            Some(Error::ContractPaused)
        } else if !self.datasets.contains_key(id) {
            Some(Error::DatasetNotFound)
        } else if self.governance.admin is None {
            Some(Error::NotInitialized)
        } else if caller != self.datasets[id].owner && Some(caller) != self.governance.admin {
            Some(Error::OnlyTheDatasetOwnerOrAdminCanDeprecate)
        } else if self.datasets[id].state == DatasetState::Deprecated {
            Some(Error::DatasetIsAlreadyDeprecated)
        } else {
            None
        }
    }

    pub open spec fn deprecate(self, id: Seq<char>, caller: Seq<char>) -> CallOutcome {
        let asked = if self.governance.paused {
            seq![]
        } else {
            seq![EffectModel::Authorize(caller)]
        };
        match self.deprecate_fault(id, caller) {
            Some(e) => refuse(self, asked, e),
            None => self.moved(id, DatasetState::Deprecated, asked, "deprecate"@),
        }
    }

    // Renewals.

    /// A dataset is renewed together with the contract and with the index entry
    /// of its hash.
    pub open spec fn renew_dataset(self, id: Seq<char>) -> CallOutcome {
        if !self.datasets.contains_key(id) {
            refuse(self, seq![], Error::DatasetNotFound)
        } else {
            let hash = self.datasets[id].metadata_hash;
            accept(
                self,
                seq![keep(KeyModel::Instance), keep(KeyModel::Dataset(id))] + (
                if self.hashes.contains_key(hash) {
                    seq![keep(KeyModel::HashIndex(hash))]
                } else {
                    seq![]
                }),
                (),
            )
        }
    }

    pub open spec fn renew_reputation(self, address: Seq<char>) -> CallOutcome {
        if !self.reputations.contains_key(address) {
            refuse(self, seq![], Error::NoReputationData)
        } else {
            accept(
                self,
                seq![keep(KeyModel::Instance), keep(KeyModel::Reputation(address))],
                (),
            )
        }
    }
}

impl DatasetRegistry {
    /// A contract that nobody initialized yet.
    pub fn new() -> (r: Self)
        ensures
            r@ == DatasetRegistryModel::fresh(),
    {
        DatasetRegistry {
            governance: Governance::new(),
            count: 0,
            datasets: Table::new(),
            hashes: Table::new(),
            reputations: Table::new(),
        }
    }

    /// Makes `admin` the first admin.
    pub fn initialize(&mut self, fx: &mut Effects, admin: Address) -> (r: Result<(), Error>)
        ensures
            r == old(self)@.initialize(admin@).answer,
            final(self)@ == old(self)@.initialize(admin@).state,
            final(fx)@ == old(fx)@ + old(self)@.initialize(admin@).effects,
    {
        let answer = lift(self.governance.initialize(fx, admin));
        if answer.is_ok() {
            self.count = 0;
            Self::bump_instance(fx);
        }
        answer
    }

    /// The first step of an admin handover: the admin proposes a successor.
    /// Control moves only once the successor accepts, so a stolen key alone
    /// cannot hand the contract to someone who did not sign.
    pub fn propose_admin(&mut self, fx: &mut Effects, new_admin: Address) -> (r: Result<(), Error>)
        ensures
            ({
                let outcome = old(self)@.governed(old(self)@.governance.propose(new_admin@));
                &&& r == outcome.answer
                &&& final(self)@ == outcome.state
                &&& final(fx)@ == old(fx)@ + outcome.effects
            }),
    {
        lift(self.governance.propose(fx, new_admin))
    }

    /// The second step: the successor accepts.
    pub fn accept_admin(&mut self, fx: &mut Effects) -> (r: Result<(), Error>)
        ensures
            ({
                let outcome = old(self)@.governed(old(self)@.governance.accept_proposal());
                &&& r == outcome.answer
                &&& final(self)@ == outcome.state
                &&& final(fx)@ == old(fx)@ + outcome.effects
            }),
    {
        lift(self.governance.accept_proposal(fx))
    }

    /// Freezes every write. Reads stay available.
    pub fn pause(&mut self, ctx: &Context, fx: &mut Effects) -> (r: Result<(), Error>)
        ensures
            ({
                let outcome = old(self)@.governed(old(self)@.governance.pause(ctx@));
                &&& r == outcome.answer
                &&& final(self)@ == outcome.state
                &&& final(fx)@ == old(fx)@ + outcome.effects
            }),
    {
        lift(self.governance.pause(ctx, fx))
    }

    /// Ends the freeze.
    pub fn unpause(&mut self, ctx: &Context, fx: &mut Effects) -> (r: Result<(), Error>)
        ensures
            ({
                let outcome = old(self)@.governed(old(self)@.governance.unpause(ctx@));
                &&& r == outcome.answer
                &&& final(self)@ == outcome.state
                &&& final(fx)@ == old(fx)@ + outcome.effects
            }),
    {
        lift(self.governance.unpause(ctx, fx))
    }

    /// Whether writes are frozen.
    pub fn is_paused(&self) -> (b: bool)
        ensures
            b == self@.governance.paused,
    {
        self.governance.paused
    }

    /// Registers a dataset under a fresh id.
    pub fn register_dataset(
        &mut self,
        ctx: &Context,
        fx: &mut Effects,
        owner: Address,
        language_code: String,
        name: String,
        metadata_hash: Hash32,
        contributors: Vec<ContributorShare>,
        sample_count: u32,
        duration_seconds: u32,
        commission_id: Option<String>,
    ) -> (r: Result<String, Error>)
        requires
            ({
                let entry = Entry {
                    owner: owner@,
                    language_code: language_code@,
                    name: name@,
                    metadata_hash: metadata_hash@,
                    contributors: views(contributors@),
                    sample_count,
                    duration_seconds,
                    commission_id: view_opt(commission_id),
                };
                old(self)@.register_fault(entry) is None ==> old(self)@.has_room(owner@)
            }),
        ensures
            ({
                let entry = Entry {
                    owner: owner@,
                    language_code: language_code@,
                    name: name@,
                    metadata_hash: metadata_hash@,
                    contributors: views(contributors@),
                    sample_count,
                    duration_seconds,
                    commission_id: view_opt(commission_id),
                };
                let outcome = old(self)@.register(ctx@, entry);
                &&& view_result(r) == outcome.answer
                &&& final(self)@ == outcome.state
                &&& final(fx)@ == old(fx)@ + outcome.effects
            }),
    {
        if self.is_paused() {
            return Err(Error::ContractPaused);
        }
        fx.authorize(&owner);
        if self.governance.admin.is_none() {
            return Err(Error::NotInitialized);
        }
        if metadata_hash.is_zero() {
            return Err(Error::MetadataHashCannotBeZero);
        }
        if self.hashes.has(&metadata_hash) {
            return Err(Error::DatasetWithThisMetadataHashIsAlreadyRegistered);
        }
        match Self::validate_shares(&contributors) {
            Err(e) => {
                return Err(e);
            },
            Ok(_) => {},
        }
        let id = numbered("ds_", self.count + 1);
        let dataset = Dataset {
            id: id.clone(),
            owner: owner.clone(),
            language_code: language_code.clone(),
            name,
            metadata_hash,
            version: 1,
            state: DatasetState::Active,
            contributors,
            created_ledger: ctx.sequence,
            sample_count,
            duration_seconds,
            commission_id,
        };
        Self::bump_instance(fx);
        self.datasets.set(id.clone(), dataset);
        self.hashes.set(metadata_hash, id.clone());
        self.count = self.count + 1;
        fx.keep(StorageKey::Dataset(id.clone()));
        fx.keep(StorageKey::HashIndex(metadata_hash));
        self.increment_reputation(fx, &owner);

        fx.publish_four(
            "dataset",
            "created",
            Value::Text(id.clone()),
            Value::Account(owner),
            Value::Text(language_code),
            Value::U32(sample_count),
        );
        Ok(id)
    }

    /// Whether `contributors` can be the shares of a dataset: some, none of
    /// them empty, nobody twice, and adding up to the whole.
    pub fn validate_shares(contributors: &Vec<ContributorShare>) -> (r: Result<(), Error>)
        ensures
            r == (match shares_fault(views(contributors@)) {
                Some(e) => Err::<(), Error>(e),
                None => Ok(()),
            }),
    {
        if contributors.is_empty() {
            return Err(Error::DatasetMustHaveAtLeastOneContributor);
        }
        let ghost shares = views(contributors@);
        let mut sum: u32 = 0;
        let mut i: usize = 0;
        assert(shares.take(0) =~= Seq::<ShareModel>::empty());
        while i < contributors.len()
            invariant
                shares == views(contributors@),
                i <= shares.len(),
                sum == share_total(shares.take(i as int)),
                shares_fault(shares) == share_fault(shares, i as int),
            decreases shares.len() - i,
        {
            assert(shares[i as int] == contributors@[i as int]@);
            if contributors[i].share_bps == 0 {
                return Err(Error::ContributorShareMustBeGreaterThanZero);
            }
            if Self::is_named_again(contributors, i) {
                return Err(Error::DuplicateContributorAddress);
            }
            assert(shares.take(i + 1).drop_last() =~= shares.take(i as int));
            match sum.checked_add(contributors[i].share_bps) {
                None => {
                    return Err(Error::ContributorSharesOverflow);
                },
                Some(grown) => {
                    sum = grown;
                },
            }
            i = i + 1;
        }
        assert(shares.take(shares.len() as int) =~= shares);
        if sum != TOTAL_BPS {
            return Err(Error::ContributorSharesMustSumTo10000);
        }
        Ok(())
    }

    fn is_named_again(contributors: &Vec<ContributorShare>, at: usize) -> (b: bool)
        requires
            at < contributors@.len(),
        ensures
            b == named_again(views(contributors@), at as int),
    {
        let ghost shares = views(contributors@);
        let n: usize = contributors.len();
        let mut j: usize = at + 1;
        while j < n
            invariant
                shares == views(contributors@),
                n == shares.len(),
                at < j <= shares.len(),
                forall|k: int| at < k < j ==> (#[trigger] shares[k]).address
                    != shares[at as int].address,
            decreases shares.len() - j,
        {
            assert(shares[j as int].address == contributors@[j as int].address@);
            if contributors[at].address.same(&contributors[j].address) {
                return true;
            }
            j = j + 1;
        }
        false
    }

    /// Counts one more registration of `address`.
    fn increment_reputation(&mut self, fx: &mut Effects, address: &Address)
        requires
            old(self)@.reputation(address@).has_room(),
        ensures
            final(self)@ == (DatasetRegistryModel {
                reputations: old(self)@.reputations.insert(
                    address@,
                    old(self)@.reputation(address@).raised(),
                ),
                ..old(self)@
            }),
            final(fx)@ == old(fx)@.push(keep(KeyModel::Reputation(address@))),
    {
        let mut rep = match self.reputations.get(address) {
            Some(found) => found.clone(),
            None => ContributorReputation {
                address: address.clone(),
                reputation_score: 0,
                datasets_registered: 0,
                total_royalties_stroops: 0,
                quality_average: 0,
            },
        };
        rep.datasets_registered = rep.datasets_registered + 1;
        rep.reputation_score = rep.reputation_score + REPUTATION_STEP;
        if rep.reputation_score > REPUTATION_MAX {
            rep.reputation_score = REPUTATION_MAX;
        }
        self.reputations.set(address.clone(), rep);
        fx.keep(StorageKey::Reputation(address.clone()));
    }

    /// What is known of `address`.
    pub fn get_reputation(&self, address: &Address) -> (r: Result<ContributorReputation, Error>)
        ensures
            view_result(r) == (if self@.reputations.contains_key(address@) {
                Ok::<ReputationModel, Error>(self@.reputations[address@])
            } else {
                Err(Error::NoReputationData)
            }),
    {
        match self.reputations.get(address) {
            Some(found) => Ok(found.clone()),
            None => Err(Error::NoReputationData),
        }
    }

    /// The dataset under an id.
    pub fn get_dataset(&self, dataset_id: &String) -> (r: Result<Dataset, Error>)
        ensures
            view_result(r) == (if self@.datasets.contains_key(dataset_id@) {
                Ok::<DatasetModel, Error>(self@.datasets[dataset_id@])
            } else {
                Err(Error::DatasetNotFound)
            }),
    {
        match self.datasets.get(dataset_id) {
            Some(found) => Ok(found.clone()),
            None => Err(Error::DatasetNotFound),
        }
    }

    /// How many datasets were registered.
    pub fn dataset_count(&self) -> (n: u32)
        ensures
            n == self@.count,
    {
        self.count
    }

    /// The dataset that has a metadata hash, if any: lets a caller look for a
    /// duplicate before trying to register.
    pub fn dataset_id_for_hash(&self, metadata_hash: &Hash32) -> (r: Option<String>)
        ensures
            view_opt(r) == (if self@.hashes.contains_key(metadata_hash@) {
                Some(self@.hashes[metadata_hash@])
            } else {
                None
            }),
    {
        match self.hashes.get(metadata_hash) {
            Some(id) => Some(id.clone()),
            None => None,
        }
    }

    /// Where a dataset stands.
    pub fn get_state(&self, dataset_id: &String) -> (r: Result<DatasetState, Error>)
        ensures
            r == (if self@.datasets.contains_key(dataset_id@) {
                Ok::<DatasetState, Error>(self@.datasets[dataset_id@].state)
            } else {
                Err(Error::DatasetNotFound)
            }),
    {
        match self.datasets.get(dataset_id) {
            Some(found) => Ok(found.state),
            None => Err(Error::DatasetNotFound),
        }
    }

    /// The owner of an active dataset gives it new content.
    pub fn update_metadata(
        &mut self,
        fx: &mut Effects,
        dataset_id: String,
        new_hash: Hash32,
    ) -> (r: Result<(), Error>)
        requires
            old(self)@.update_fault(dataset_id@, new_hash@) is None
                ==> old(self)@.datasets[dataset_id@].version < u32::MAX,
        ensures
            r == old(self)@.update(dataset_id@, new_hash@).answer,
            final(self)@ == old(self)@.update(dataset_id@, new_hash@).state,
            final(fx)@ == old(fx)@ + old(self)@.update(dataset_id@, new_hash@).effects,
    {
        if self.is_paused() {
            return Err(Error::ContractPaused);
        }
        let mut ds = match self.get_dataset(&dataset_id) {
            Err(e) => {
                return Err(e);
            },
            Ok(found) => found,
        };
        fx.authorize(&ds.owner);
        if ds.state != DatasetState::Active {
            return Err(Error::DatasetMustBeActiveToUpdateMetadata);
        }
        if new_hash.is_zero() {
            return Err(Error::MetadataHashCannotBeZero);
        }
        if new_hash.same(&ds.metadata_hash) {
            return Err(Error::MetadataHashUnchanged);
        }
        if self.hashes.has(&new_hash) {
            return Err(Error::DatasetWithThisMetadataHashIsAlreadyRegistered);
        }
        self.hashes.remove(&ds.metadata_hash);
        self.hashes.set(new_hash, dataset_id.clone());
        fx.keep(StorageKey::HashIndex(new_hash));

        ds.metadata_hash = new_hash;
        ds.version = ds.version + 1;
        let version: u32 = ds.version;
        self.save(fx, &dataset_id, ds);

        fx.publish_three(
            "dataset",
            "updated",
            Value::Text(dataset_id),
            Value::Digest(new_hash),
            Value::U32(version),
        );
        Ok(())
    }

    /// The admin holds an active dataset for review.
    pub fn flag_dataset(&mut self, fx: &mut Effects, dataset_id: String) -> (r: Result<(), Error>)
        ensures
            r == old(self)@.flag(dataset_id@).answer,
            final(self)@ == old(self)@.flag(dataset_id@).state,
            final(fx)@ == old(fx)@ + old(self)@.flag(dataset_id@).effects,
    {
        if self.is_paused() {
            return Err(Error::ContractPaused);
        }
        if self.governance.authorize_admin(fx).is_err() {
            return Err(Error::NotInitialized);
        }
        let mut ds = match self.get_dataset(&dataset_id) {
            Err(e) => {
                return Err(e);
            },
            Ok(found) => found,
        };
        if ds.state != DatasetState::Active {
            return Err(Error::OnlyAnActiveDatasetCanBeFlaggedForReview);
        }
        ds.state = DatasetState::UnderReview;
        self.save(fx, &dataset_id, ds);
        fx.publish_one("dataset", "flagged", Value::Text(dataset_id));
        Ok(())
    }

    /// The admin ends a review: the dataset is active again.
    pub fn reinstate_dataset(&mut self, fx: &mut Effects, dataset_id: String) -> (r: Result<
        (),
        Error,
    >)
        ensures
            r == old(self)@.reinstate(dataset_id@).answer,
            final(self)@ == old(self)@.reinstate(dataset_id@).state,
            final(fx)@ == old(fx)@ + old(self)@.reinstate(dataset_id@).effects,
    {
        if self.is_paused() {
            return Err(Error::ContractPaused);
        }
        if self.governance.authorize_admin(fx).is_err() {
            return Err(Error::NotInitialized);
        }
        let mut ds = match self.get_dataset(&dataset_id) {
            Err(e) => {
                return Err(e);
            },
            Ok(found) => found,
        };
        if ds.state != DatasetState::UnderReview {
            return Err(Error::OnlyADatasetUnderReviewCanBeReinstated);
        }
        ds.state = DatasetState::Active;
        self.save(fx, &dataset_id, ds);
        fx.publish_one("dataset", "reinstate", Value::Text(dataset_id));
        Ok(())
    }

    /// Retires a dataset for good. The caller says who it is, signs as that,
    /// and has to be the owner or the admin.
    pub fn deprecate_dataset(
        &mut self,
        fx: &mut Effects,
        dataset_id: String,
        caller: Address,
    ) -> (r: Result<(), Error>)
        ensures
            r == old(self)@.deprecate(dataset_id@, caller@).answer,
            final(self)@ == old(self)@.deprecate(dataset_id@, caller@).state,
            final(fx)@ == old(fx)@ + old(self)@.deprecate(dataset_id@, caller@).effects,
    {
        if self.is_paused() {
            return Err(Error::ContractPaused);
        }
        fx.authorize(&caller);
        let mut ds = match self.get_dataset(&dataset_id) {
            Err(e) => {
                return Err(e);
            },
            Ok(found) => found,
        };
        match &self.governance.admin {
            None => {
                return Err(Error::NotInitialized);
            },
            Some(admin) => {
                if !caller.same(&ds.owner) && !caller.same(admin) {
                    return Err(Error::OnlyTheDatasetOwnerOrAdminCanDeprecate);
                }
            },
        }
        if ds.state == DatasetState::Deprecated {
            return Err(Error::DatasetIsAlreadyDeprecated);
        }
        ds.state = DatasetState::Deprecated;
        self.save(fx, &dataset_id, ds);
        fx.publish_one("dataset", "deprecate", Value::Text(dataset_id));
        Ok(())
    }

    /// Keeps a dataset for another full window. Anyone may ask: a dataset that
    /// lapses is a loss to all who built on it. The index entry of its hash is
    /// kept along with it, so that the hash is not free while it lives.
    pub fn renew_dataset_ttl(&self, fx: &mut Effects, dataset_id: String) -> (r: Result<(), Error>)
        ensures
            r == self@.renew_dataset(dataset_id@).answer,
            final(fx)@ == old(fx)@ + self@.renew_dataset(dataset_id@).effects,
    {
        match self.datasets.get(&dataset_id) {
            None => Err(Error::DatasetNotFound),
            Some(ds) => {
                Self::bump_instance(fx);
                fx.keep(StorageKey::Dataset(dataset_id));
                if self.hashes.has(&ds.metadata_hash) {
                    fx.keep(StorageKey::HashIndex(ds.metadata_hash));
                }
                Ok(())
            },
        }
    }

    /// Keeps a reputation for another full window. Anyone may ask.
    pub fn renew_reputation_ttl(&self, fx: &mut Effects, address: Address) -> (r: Result<
        (),
        Error,
    >)
        ensures
            r == self@.renew_reputation(address@).answer,
            final(fx)@ == old(fx)@ + self@.renew_reputation(address@).effects,
    {
        if !self.reputations.has(&address) {
            return Err(Error::NoReputationData);
        }
        Self::bump_instance(fx);
        fx.keep(StorageKey::Reputation(address));
        Ok(())
    }

    /// Keeps the contract itself: were its own entry to lapse, every record
    /// under it would be out of reach, however fresh.
    fn bump_instance(fx: &mut Effects)
        ensures
            final(fx)@ == old(fx)@.push(keep(KeyModel::Instance)),
    {
        fx.keep(StorageKey::Instance);
    }

    /// Writes a dataset back, and keeps it.
    fn save(&mut self, fx: &mut Effects, dataset_id: &String, ds: Dataset)
        ensures
            final(self)@ == old(self)@.with_dataset(dataset_id@, ds@),
            final(fx)@ == old(fx)@ + seq![
                keep(KeyModel::Instance),
                keep(KeyModel::Dataset(dataset_id@)),
            ],
    {
        Self::bump_instance(fx);
        self.datasets.set(dataset_id.clone(), ds);
        fx.keep(StorageKey::Dataset(dataset_id.clone()));
    }

    /// The version of this contract.
    pub fn version() -> (n: u32)
        ensures
            n == 3,
    {
        3
    }

    /// The admin replaces the contract's code.
    pub fn upgrade(&self, ctx: &Context, fx: &mut Effects, new_wasm_hash: Hash32) -> (r: Result<
        (),
        Error,
    >)
        ensures
            r == lifted_answer(self@.governance.upgrade(ctx@, new_wasm_hash@).answer),
            final(fx)@ == old(fx)@ + self@.governance.upgrade(ctx@, new_wasm_hash@).effects,
    {
        lift(self.governance.upgrade(ctx, fx, new_wasm_hash))
    }
}

} // verus!
