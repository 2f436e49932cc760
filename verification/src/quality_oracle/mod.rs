//! Quality attestations: staked curators score datasets, and the average of
//! the scores decides a dataset's tier and what its royalties are multiplied
//! by.
//!
//! The admin can slash a curator whose score is too far from the median of all
//! the scores that its dataset got: a fifth of the remaining stake goes to the
//! treasury. The first slash is a warning, the second a ban.

use crate::governance::{Governance, GovernanceError, GovernanceModel, GovernanceOutcome};
use crate::host::{accept, event, keep, refuse, view_result, views, Address, Context, ContextModel,
    EffectModel, Effects, Hash32, KeyModel, Outcome, StorageKey, Value, ValueModel};
use crate::quality_oracle::median::{has_median, has_median_of, median, median_of};
use crate::table::{Key, Table};
use vstd::prelude::*;

pub mod calls;
pub mod laws;
pub mod median;

verus! {

/// The highest score.
pub const MAX_SCORE: u32 = 100;

/// What a curator stakes, in stroops.
pub const MIN_CURATOR_STAKE: i128 = 100_000_000;

/// How far from the median a score may be without being slashed.
pub const SLASH_DEVIATION_THRESHOLD: u32 = 30;

/// The part of a stake that a slash takes, in basis points.
pub const SLASH_BPS: i128 = 2_000;

pub const TOTAL_BPS: i128 = 10_000;

/// Why a call is refused.
#[derive(Clone, Copy, Debug, PartialEq, Eq, PartialOrd, Ord, Structural)]
pub enum Error {
    AlreadyInitialized,
    NotInitialized,
    NoAdminProposalPending,
    CuratorAlreadyRegistered,
    CuratorNotRegistered,
    CuratorIsBanned,
    ScoreOutOfRange,
    NoQualityData,
    CuratorAlreadyBanned,
    NoAttestationOfCurator,
    NoAttestationsForDataset,
    MissingAttestation,
    WithinTolerance,
    /// A write was asked of a frozen contract.
    ContractPaused,
    /// `pause` was asked of a contract that is frozen.
    AlreadyPaused,
    /// `unpause` was asked of a contract that is not frozen.
    NotPaused,
}

impl Error {
    /// The number under which callers see the error.
    pub open spec fn spec_code(self) -> u32 {
        match self {
            Error::AlreadyInitialized => 1,
            Error::NotInitialized => 2,
            Error::NoAdminProposalPending => 3,
            Error::CuratorAlreadyRegistered => 4,
            Error::CuratorNotRegistered => 5,
            Error::CuratorIsBanned => 6,
            Error::ScoreOutOfRange => 7,
            Error::NoQualityData => 8,
            Error::CuratorAlreadyBanned => 9,
            Error::NoAttestationOfCurator => 10,
            Error::NoAttestationsForDataset => 11,
            Error::MissingAttestation => 12,
            Error::WithinTolerance => 13,
            Error::ContractPaused => 14,
            Error::AlreadyPaused => 15,
            Error::NotPaused => 16,
        }
    }

    /// What the error says.
    pub open spec fn spec_message(self) -> Seq<char> {
        match self {
            Error::AlreadyInitialized => "already initialized"@,
            Error::NotInitialized => "not initialized"@,
            Error::NoAdminProposalPending => "no admin proposal pending"@,
            Error::CuratorAlreadyRegistered => "curator already registered"@,
            Error::CuratorNotRegistered => "curator not registered"@,
            Error::CuratorIsBanned => "curator is banned"@,
            Error::ScoreOutOfRange => "score must be 0-100"@,
            Error::NoQualityData => "no quality data for dataset"@,
            Error::CuratorAlreadyBanned => "curator already banned"@,
            Error::NoAttestationOfCurator => "curator has no attestation for this dataset"@,
            Error::NoAttestationsForDataset => "no attestations for dataset"@,
            Error::MissingAttestation => "missing attestation for listed attester"@,
            Error::WithinTolerance => "attestation within consensus tolerance, cannot slash"@,
            Error::ContractPaused => "contract paused"@,
            Error::AlreadyPaused => "already paused"@,
            Error::NotPaused => "not paused"@,
        }
    }

    /// The error by which this contract reports one of its admin's side.
    pub open spec fn of_governance(error: GovernanceError) -> Error {
        match error {
            GovernanceError::AlreadyInitialized => Error::AlreadyInitialized,
            GovernanceError::NotInitialized => Error::NotInitialized,
            GovernanceError::NoAdminProposalPending => Error::NoAdminProposalPending,
            GovernanceError::AlreadyPaused => Error::AlreadyPaused,
            GovernanceError::NotPaused => Error::NotPaused,
        }
    }

    /// The number under which callers see the error.
    pub fn code(&self) -> (r: u32)
        ensures
            r == self.spec_code(),
    {
        match self {
            Error::AlreadyInitialized => 1,
            Error::NotInitialized => 2,
            Error::NoAdminProposalPending => 3,
            Error::CuratorAlreadyRegistered => 4,
            Error::CuratorNotRegistered => 5,
            Error::CuratorIsBanned => 6,
            Error::ScoreOutOfRange => 7,
            Error::NoQualityData => 8,
            Error::CuratorAlreadyBanned => 9,
            Error::NoAttestationOfCurator => 10,
            Error::NoAttestationsForDataset => 11,
            Error::MissingAttestation => 12,
            Error::WithinTolerance => 13,
            Error::ContractPaused => 14,
            Error::AlreadyPaused => 15,
            Error::NotPaused => 16,
        }
    }

    /// What the error says.
    pub fn message(&self) -> (r: &'static str)
        ensures
            r@ == self.spec_message(),
    {
        match self {
            Error::AlreadyInitialized => "already initialized",
            Error::NotInitialized => "not initialized",
            Error::NoAdminProposalPending => "no admin proposal pending",
            Error::CuratorAlreadyRegistered => "curator already registered",
            Error::CuratorNotRegistered => "curator not registered",
            Error::CuratorIsBanned => "curator is banned",
            Error::ScoreOutOfRange => "score must be 0-100",
            Error::NoQualityData => "no quality data for dataset",
            Error::CuratorAlreadyBanned => "curator already banned",
            Error::NoAttestationOfCurator => "curator has no attestation for this dataset",
            Error::NoAttestationsForDataset => "no attestations for dataset",
            Error::MissingAttestation => "missing attestation for listed attester",
            Error::WithinTolerance => "attestation within consensus tolerance, cannot slash",
            Error::ContractPaused => "contract paused",
            Error::AlreadyPaused => "already paused",
            Error::NotPaused => "not paused",
        }
    }
}

fn lift(answer: Result<(), GovernanceError>) -> (r: Result<(), Error>)
    ensures
        r == lifted_answer(answer),
{
    match answer {
        Ok(_) => Ok(()),
        Err(GovernanceError::AlreadyInitialized) => Err(Error::AlreadyInitialized),
        Err(GovernanceError::NotInitialized) => Err(Error::NotInitialized),
        Err(GovernanceError::NoAdminProposalPending) => Err(Error::NoAdminProposalPending),
        Err(GovernanceError::AlreadyPaused) => Err(Error::AlreadyPaused),
        Err(GovernanceError::NotPaused) => Err(Error::NotPaused),
    }
}

/// An answer of the admin's side, as this contract reports it.
pub open spec fn lifted_answer(answer: Result<(), GovernanceError>) -> Result<(), Error> {
    match answer {
        Ok(_) => Ok(()),
        Err(e) => Err(Error::of_governance(e)),
    }
}

/// How good a dataset is.
#[derive(Clone, Copy, Debug, PartialEq, Eq, Structural)]
pub enum QualityTier {
    Unrated,
    Bronze,
    Silver,
    Gold,
    Platinum,
}

impl QualityTier {
    pub open spec fn spec_name(self) -> Seq<char> {
        match self {
            QualityTier::Unrated => "Unrated"@,
            QualityTier::Bronze => "Bronze"@,
            QualityTier::Silver => "Silver"@,
            QualityTier::Gold => "Gold"@,
            QualityTier::Platinum => "Platinum"@,
        }
    }

    /// The tier's name.
    pub fn name(&self) -> (r: &'static str)
        ensures
            r@ == self.spec_name(),
    {
        match self {
            QualityTier::Unrated => "Unrated",
            QualityTier::Bronze => "Bronze",
            QualityTier::Silver => "Silver",
            QualityTier::Gold => "Gold",
            QualityTier::Platinum => "Platinum",
        }
    }
}

/// The tier of an average score.
pub open spec fn tier_of(score: u32) -> QualityTier {
    if score == 0 {
        QualityTier::Unrated
    } else if score < 40 {
        QualityTier::Bronze
    } else if score < 70 {
        QualityTier::Silver
    } else if score < 85 {
        QualityTier::Gold
    } else {
        QualityTier::Platinum
    }
}

/// What the royalties of a tier are multiplied by, in basis points.
pub open spec fn multiplier_of(tier: QualityTier) -> u32 {
    match tier {
        QualityTier::Platinum => 15_000,
        QualityTier::Gold => 12_500,
        QualityTier::Silver => 10_000,
        QualityTier::Bronze => 7_500,
        QualityTier::Unrated => 10_000,
    }
}

/// A curator's standing after no, one or two slashes.
#[derive(Clone, Copy, Debug, PartialEq, Eq, Structural)]
pub enum CuratorStatus {
    Active,
    SlashWarning,
    Banned,
}

impl CuratorStatus {
    pub open spec fn spec_name(self) -> Seq<char> {
        match self {
            CuratorStatus::Active => "Active"@,
            CuratorStatus::SlashWarning => "SlashWarning"@,
            CuratorStatus::Banned => "Banned"@,
        }
    }

    /// The status's name.
    pub fn name(&self) -> (r: &'static str)
        ensures
            r@ == self.spec_name(),
    {
        match self {
            CuratorStatus::Active => "Active",
            CuratorStatus::SlashWarning => "SlashWarning",
            CuratorStatus::Banned => "Banned",
        }
    }

    /// The status after one more slash.
    pub open spec fn worse(self) -> CuratorStatus {
        match self {
            CuratorStatus::Active => CuratorStatus::SlashWarning,
            _ => CuratorStatus::Banned,
        }
    }
}

/// A curator's stake and standing.
#[derive(Clone, Copy, Debug, PartialEq, Eq, Structural)]
pub struct CuratorState {
    pub stake: i128,
    pub status: CuratorStatus,
}

impl View for CuratorState {
    type V = CuratorState;

    open spec fn view(&self) -> CuratorState {
        *self
    }
}

impl CuratorState {
    /// What a slash takes.
    pub open spec fn slash(self) -> int {
        self.stake * SLASH_BPS / TOTAL_BPS as int
    }

    /// Whether what a slash takes can be computed and credited to `treasury`.
    pub open spec fn can_pay(self, treasury: i128) -> bool {
        &&& 0 <= self.stake
        &&& self.stake * SLASH_BPS <= i128::MAX
        &&& treasury + self.slash() <= i128::MAX
    }
}

/// One curator's score for one dataset.
#[derive(Debug, PartialEq, Eq)]
pub struct QualityAttestation {
    pub dataset_id: String,
    pub curator: Address,
    /// From 0 to 100.
    pub score: u32,
    /// Where the scoring rubric is found.
    pub rubric_hash: Hash32,
    pub ledger: u32,
}

#[verifier::ext_equal]
pub struct AttestationModel {
    pub dataset_id: Seq<char>,
    pub curator: Seq<char>,
    pub score: u32,
    pub rubric_hash: Seq<u8>,
    pub ledger: u32,
}

impl View for QualityAttestation {
    type V = AttestationModel;

    open spec fn view(&self) -> AttestationModel {
        AttestationModel {
            dataset_id: self.dataset_id@,
            curator: self.curator@,
            score: self.score,
            rubric_hash: self.rubric_hash@,
            ledger: self.ledger,
        }
    }
}

impl Clone for QualityAttestation {
    fn clone(&self) -> (r: Self)
        ensures
            r@ == self@,
    {
        QualityAttestation {
            dataset_id: self.dataset_id.clone(),
            curator: self.curator.clone(),
            score: self.score,
            rubric_hash: self.rubric_hash,
            ledger: self.ledger,
        }
    }
}

/// The aggregate of a dataset's scores.
#[derive(Debug, PartialEq, Eq)]
pub struct DatasetQuality {
    pub dataset_id: String,
    pub average_score: u32,
    pub attestation_count: u32,
    pub last_updated_ledger: u32,
    pub tier: QualityTier,
}

#[verifier::ext_equal]
pub struct QualityModel {
    pub dataset_id: Seq<char>,
    pub average_score: u32,
    pub attestation_count: u32,
    pub last_updated_ledger: u32,
    pub tier: QualityTier,
}

impl View for DatasetQuality {
    type V = QualityModel;

    open spec fn view(&self) -> QualityModel {
        QualityModel {
            dataset_id: self.dataset_id@,
            average_score: self.average_score,
            attestation_count: self.attestation_count,
            last_updated_ledger: self.last_updated_ledger,
            tier: self.tier,
        }
    }
}

impl Clone for DatasetQuality {
    fn clone(&self) -> (r: Self)
        ensures
            r@ == self@,
    {
        DatasetQuality {
            dataset_id: self.dataset_id.clone(),
            average_score: self.average_score,
            attestation_count: self.attestation_count,
            last_updated_ledger: self.last_updated_ledger,
            tier: self.tier,
        }
    }
}

impl QualityModel {
    /// A dataset that nobody scored.
    pub open spec fn unrated(dataset_id: Seq<char>) -> Self {
        QualityModel {
            dataset_id,
            average_score: 0,
            attestation_count: 0,
            last_updated_ledger: 0,
            tier: QualityTier::Unrated,
        }
    }

    /// After one more score. The average is that of the stored average, which
    /// is rounded down already, and the new score.
    pub open spec fn with_score(self, score: u32, sequence: u32) -> Self {
        let average = ((self.average_score * self.attestation_count + score) / (
        self.attestation_count + 1)) as u32;
        QualityModel {
            average_score: average,
            attestation_count: (self.attestation_count + 1) as u32,
            last_updated_ledger: sequence,
            tier: tier_of(average),
            ..self
        }
    }
}

/// Whose score, for which dataset.
#[derive(Debug, PartialEq, Eq)]
pub struct AttestationKey {
    pub dataset_id: String,
    pub curator: Address,
}

impl View for AttestationKey {
    type V = (Seq<char>, Seq<char>);

    open spec fn view(&self) -> (Seq<char>, Seq<char>) {
        (self.dataset_id@, self.curator@)
    }
}

impl Clone for AttestationKey {
    fn clone(&self) -> (r: Self)
        ensures
            r@ == self@,
    {
        AttestationKey { dataset_id: self.dataset_id.clone(), curator: self.curator.clone() }
    }
}

impl Key for AttestationKey {
    fn same(&self, other: &Self) -> (b: bool) {
        self.dataset_id.same(&other.dataset_id) && self.curator.same(&other.curator)
    }
}

/// The curators who scored a dataset, each once, in the order they came.
#[derive(Debug, PartialEq, Eq)]
pub struct Attesters {
    pub list: Vec<Address>,
}

impl View for Attesters {
    type V = Seq<Seq<char>>;

    open spec fn view(&self) -> Seq<Seq<char>> {
        views(self.list@)
    }
}

impl Clone for Attesters {
    fn clone(&self) -> (r: Self)
        ensures
            r@ == self@,
    {
        let list = self.list.clone();
        assert(views(list@) =~= views(self.list@));
        Attesters { list }
    }
}

impl Attesters {
    fn has(&self, curator: &Address) -> (b: bool)
        ensures
            b == self@.contains(curator@),
    {
        let mut i: usize = 0;
        while i < self.list.len()
            invariant
                i <= self.list@.len(),
                forall|j: int| 0 <= j < i ==> (#[trigger] self@[j]) != curator@,
            decreases self.list@.len() - i,
        {
            if self.list[i].same(curator) {
                assert(self@[i as int] == curator@);
                return true;
            }
            i = i + 1;
        }
        false
    }
}

/// The oracle contract.
#[derive(Clone, Debug)]
pub struct QualityOracle {
    pub governance: Governance,
    /// How many curators registered.
    pub curator_count: u32,
    /// What slashing brought in, in stroops.
    pub treasury: i128,
    pub curators: Table<Address, CuratorState>,
    pub attestations: Table<AttestationKey, QualityAttestation>,
    pub attesters: Table<String, Attesters>,
    pub qualities: Table<String, DatasetQuality>,
}

#[verifier::ext_equal]
pub struct QualityOracleModel {
    pub governance: GovernanceModel,
    pub curator_count: u32,
    pub treasury: i128,
    pub curators: Map<Seq<char>, CuratorState>,
    /// By dataset and curator.
    pub attestations: Map<(Seq<char>, Seq<char>), AttestationModel>,
    pub attesters: Map<Seq<char>, Seq<Seq<char>>>,
    pub qualities: Map<Seq<char>, QualityModel>,
}

impl View for QualityOracle {
    type V = QualityOracleModel;

    open spec fn view(&self) -> QualityOracleModel {
        QualityOracleModel {
            governance: self.governance@,
            curator_count: self.curator_count,
            treasury: self.treasury,
            curators: self.curators@,
            attestations: self.attestations@,
            attesters: self.attesters@,
            qualities: self.qualities@,
        }
    }
}

pub type CallOutcome = Outcome<QualityOracleModel, (), Error>;

/// What a curator submits.
#[verifier::ext_equal]
pub struct Submission {
    pub curator: Seq<char>,
    pub dataset_id: Seq<char>,
    pub score: u32,
    pub rubric_hash: Seq<u8>,
}

impl QualityOracleModel {
    /// Before anyone initialized the contract.
    pub open spec fn fresh() -> Self {
        QualityOracleModel {
            governance: GovernanceModel::fresh(),
            curator_count: 0,
            treasury: 0,
            curators: Map::empty(),
            attestations: Map::empty(),
            attesters: Map::empty(),
            qualities: Map::empty(),
        }
    }

    /// What the admin's side answers, as an outcome of the contract.
    pub open spec fn governed(self, outcome: GovernanceOutcome) -> CallOutcome {
        Outcome {
            answer: lifted_answer(outcome.answer),
            state: QualityOracleModel { governance: outcome.state, ..self },
            effects: outcome.effects,
        }
    }

    pub open spec fn initialize(self, admin: Seq<char>) -> CallOutcome {
        let outcome = self.governed(self.governance.initialize(admin));
        if outcome.answer is Ok {
            Outcome {
                state: QualityOracleModel { curator_count: 0, ..outcome.state },
                ..outcome
            }
        } else {
            outcome
        }
    }

    // Curators.

    pub open spec fn register(self, curator: Seq<char>) -> CallOutcome {
        if self.governance.paused {
            refuse(self, seq![], Error::ContractPaused)
        } else if self.curators.contains_key(curator) {
            refuse(
                self,
                seq![EffectModel::Authorize(curator)],
                Error::CuratorAlreadyRegistered,
            )
        } else {
            accept(
                QualityOracleModel {
                    curators: self.curators.insert(
                        curator,
                        CuratorState { stake: MIN_CURATOR_STAKE, status: CuratorStatus::Active },
                    ),
                    curator_count: (self.curator_count + 1) as u32,
                    ..self
                },
                seq![
                    EffectModel::Authorize(curator),
                    keep(KeyModel::Curator(curator)),
                    event("oracle"@, "curator"@, seq![ValueModel::Account(curator)]),
                ],
                (),
            )
        }
    }

    // Attestations.

    pub open spec fn attest_fault(self, submission: Submission) -> Option<Error> {
        if self.governance.paused {
            Some(Error::ContractPaused)
        } else if !self.curators.contains_key(submission.curator) {
            Some(Error::CuratorNotRegistered)
        } else if self.curators[submission.curator].status == CuratorStatus::Banned {
            Some(Error::CuratorIsBanned)
        } else if submission.score > MAX_SCORE {
            Some(Error::ScoreOutOfRange)
        } else {
            None
        }
    }

    /// The aggregate of a dataset, be it of no scores.
    pub open spec fn quality(self, dataset_id: Seq<char>) -> QualityModel {
        if self.qualities.contains_key(dataset_id) {
            self.qualities[dataset_id]
        } else {
            QualityModel::unrated(dataset_id)
        }
    }

    /// Who scored a dataset.
    pub open spec fn listed(self, dataset_id: Seq<char>) -> Seq<Seq<char>> {
        if self.attesters.contains_key(dataset_id) {
            self.attesters[dataset_id]
        } else {
            seq![]
        }
    }

    /// A curator's later score for the same dataset takes the place of the
    /// earlier one, and both count in the average.
    pub open spec fn attest(self, ctx: ContextModel, submission: Submission) -> CallOutcome {
        let id = submission.dataset_id;
        let curator = submission.curator;
        let asked = if self.governance.paused {
            seq![]
        } else {
            seq![EffectModel::Authorize(curator)]
        };
        let quality = self.quality(id).with_score(submission.score, ctx.sequence);
        match self.attest_fault(submission) {
            Some(e) => refuse(self, asked, e),
            None => accept(
                QualityOracleModel {
                    attestations: self.attestations.insert(
                        (id, curator),
                        AttestationModel {
                            dataset_id: id,
                            curator,
                            score: submission.score,
                            rubric_hash: submission.rubric_hash,
                            ledger: ctx.sequence,
                        },
                    ),
                    attesters: self.attesters.insert(
                        id,
                        if self.listed(id).contains(curator) {
                            self.listed(id)
                        } else {
                            self.listed(id).push(curator)
                        },
                    ),
                    qualities: self.qualities.insert(id, quality),
                    ..self
                },
                asked + seq![
                    keep(KeyModel::Attestation(id, curator)),
                    keep(KeyModel::Attesters(id)),
                    keep(KeyModel::Quality(id)),
                    event(
                        "oracle"@,
                        "attested"@,
                        seq![
                            ValueModel::Text(id),
                            ValueModel::Account(curator),
                            ValueModel::U32(submission.score),
                            ValueModel::Variant(quality.tier.spec_name()),
                        ],
                    ),
                ],
                (),
            ),
        }
    }

    // Slashing.

    /// The scores of those who scored a dataset, each one's latest.
    pub open spec fn scores(self, dataset_id: Seq<char>) -> Seq<u32> {
        Seq::new(
            self.attesters[dataset_id].len(),
            |i: int| self.attestations[(dataset_id, self.attesters[dataset_id][i])].score,
        )
    }

    /// Whether each of those who are listed for a dataset has a score.
    pub open spec fn all_scored(self, dataset_id: Seq<char>) -> bool {
        forall|i: int|
            0 <= i < self.attesters[dataset_id].len() ==> self.attestations.contains_key(
                (dataset_id, #[trigger] self.attesters[dataset_id][i]),
            )
    }

    /// How far a curator's score is from the median.
    pub open spec fn deviation(self, curator: Seq<char>, dataset_id: Seq<char>) -> int {
        let consensus = median(self.scores(dataset_id));
        let score = self.attestations[(dataset_id, curator)].score;
        if score >= consensus {
            score - consensus
        } else {
            consensus - score
        }
    }

    /// What speaks against a slash before any scores are compared.
    pub open spec fn unfit_for_slash(self, curator: Seq<char>, id: Seq<char>) -> Option<Error> {
        if self.governance.paused {
            Some(Error::ContractPaused)
        } else if self.governance.admin is None {
            Some(Error::NotInitialized)
        } else if !self.curators.contains_key(curator) {
            Some(Error::CuratorNotRegistered)
        } else if self.curators[curator].status == CuratorStatus::Banned {
            Some(Error::CuratorAlreadyBanned)
        } else if !self.attestations.contains_key((id, curator)) {
            Some(Error::NoAttestationOfCurator)
        } else if !self.attesters.contains_key(id) {
            Some(Error::NoAttestationsForDataset)
        } else if !self.all_scored(id) {
            Some(Error::MissingAttestation)
        } else {
            None
        }
    }

    pub open spec fn slash_fault(self, curator: Seq<char>, id: Seq<char>) -> Option<Error> {
        if self.unfit_for_slash(curator, id) is Some {
            self.unfit_for_slash(curator, id)
        } else if self.deviation(curator, id) <= SLASH_DEVIATION_THRESHOLD {
            Some(Error::WithinTolerance)
        } else {
            None
        }
    }

    /// Whether machine numbers can compute a slash as far as it gets.
    pub open spec fn slash_fits(self, curator: Seq<char>, id: Seq<char>) -> bool {
        &&& self.unfit_for_slash(curator, id) is None ==> has_median(self.scores(id))
        &&& self.slash_fault(curator, id) is None ==> self.curators[curator].can_pay(self.treasury)
    }

    pub open spec fn slash(self, curator: Seq<char>, id: Seq<char>) -> CallOutcome {
        let asked = if self.governance.paused {
            seq![]
        } else {
            self.governance.admin_asked()
        };
        let before = self.curators[curator];
        let amount = before.slash() as i128;
        let after = CuratorState {
            stake: (before.stake - amount) as i128,
            status: before.status.worse(),
        };
        match self.slash_fault(curator, id) {
            Some(e) => refuse(self, asked, e),
            None => accept(
                QualityOracleModel {
                    curators: self.curators.insert(curator, after),
                    treasury: (self.treasury + amount) as i128,
                    ..self
                },
                asked + seq![
                    keep(KeyModel::Curator(curator)),
                    event(
                        "oracle"@,
                        "slashed"@,
                        seq![
                            ValueModel::Account(curator),
                            ValueModel::Text(id),
                            ValueModel::I128(amount),
                            ValueModel::Variant(after.status.spec_name()),
                        ],
                    ),
                ],
                (),
            ),
        }
    }

    // Reads and renewals.

    /// What a dataset's royalties are multiplied by: those of a dataset that
    /// nobody scored, by one.
    pub open spec fn multiplier(self, dataset_id: Seq<char>) -> u32 {
        if self.qualities.contains_key(dataset_id) {
            multiplier_of(self.qualities[dataset_id].tier)
        } else {
            10_000
        }
    }

    pub open spec fn renew(self, dataset_id: Seq<char>) -> CallOutcome {
        if !self.qualities.contains_key(dataset_id) {
            refuse(self, seq![], Error::NoQualityData)
        } else {
            accept(self, seq![keep(KeyModel::Quality(dataset_id))], ())
        }
    }
}

/// A mean does not exceed both the earlier mean and the new value.
pub proof fn lemma_mean_fits(average: int, count: int, score: int)
    requires
        0 <= average,
        0 <= count,
        0 <= score,
    ensures
        0 <= (average * count + score) / (count + 1),
        (average * count + score) / (count + 1) <= (if average >= score {
            average
        } else {
            score
        }),
{
    let most = if average >= score {
        average
    } else {
        score
    };
    let total = average * count + score;
    assert(0 <= total <= most * (count + 1)) by (nonlinear_arith)
        requires
            total == average * count + score,
            0 <= average <= most,
            0 <= score <= most,
            0 <= count,
    ;
    vstd::arithmetic::div_mod::lemma_div_pos_is_pos(total, count + 1);
    vstd::arithmetic::div_mod::lemma_div_is_ordered(total, most * (count + 1), count + 1);
    vstd::arithmetic::div_mod::lemma_div_by_multiple(most, count + 1);
}

impl QualityOracle {
    /// A contract that nobody initialized yet.
    pub fn new() -> (r: Self)
        ensures
            r@ == QualityOracleModel::fresh(),
    {
        QualityOracle {
            governance: Governance::new(),
            curator_count: 0,
            treasury: 0,
            curators: Table::new(),
            attestations: Table::new(),
            attesters: Table::new(),
            qualities: Table::new(),
        }
    }

    /// Makes `admin` the first admin.
    pub fn initialize(&mut self, fx: &mut Effects, admin: Address) -> (r: Result<(), Error>)
        ensures
            r == old(self)@.initialize(admin@).answer,
            final(self)@ == old(self)@.initialize(admin@).state,
            final(fx)@ == old(fx)@ + old(self)@.initialize(admin@).effects,
    {
        let answer = lift(self.governance.initialize(fx, admin));
        if answer.is_ok() {
            self.curator_count = 0;
        }
        answer
    }

    /// The first step of an admin handover: the admin proposes a successor.
    /// Control moves only once the successor accepts, so a stolen key alone
    /// cannot hand the contract to someone who did not sign.
    pub fn propose_admin(&mut self, fx: &mut Effects, new_admin: Address) -> (r: Result<(), Error>)
        ensures
            ({
                let outcome = old(self)@.governed(old(self)@.governance.propose(new_admin@));
                &&& r == outcome.answer
                &&& final(self)@ == outcome.state
                &&& final(fx)@ == old(fx)@ + outcome.effects
            }),
    {
        lift(self.governance.propose(fx, new_admin))
    }

    /// The second step: the successor accepts.
    pub fn accept_admin(&mut self, fx: &mut Effects) -> (r: Result<(), Error>)
        ensures
            ({
                let outcome = old(self)@.governed(old(self)@.governance.accept_proposal());
                &&& r == outcome.answer
                &&& final(self)@ == outcome.state
                &&& final(fx)@ == old(fx)@ + outcome.effects
            }),
    {
        lift(self.governance.accept_proposal(fx))
    }

    /// Freezes every write. Reads stay available.
    pub fn pause(&mut self, ctx: &Context, fx: &mut Effects) -> (r: Result<(), Error>)
        ensures
            ({
                let outcome = old(self)@.governed(old(self)@.governance.pause(ctx@));
                &&& r == outcome.answer
                &&& final(self)@ == outcome.state
                &&& final(fx)@ == old(fx)@ + outcome.effects
            }),
    {
        lift(self.governance.pause(ctx, fx))
    }

    /// Ends the freeze.
    pub fn unpause(&mut self, ctx: &Context, fx: &mut Effects) -> (r: Result<(), Error>)
        ensures
            ({
                let outcome = old(self)@.governed(old(self)@.governance.unpause(ctx@));
                &&& r == outcome.answer
                &&& final(self)@ == outcome.state
                &&& final(fx)@ == old(fx)@ + outcome.effects
            }),
    {
        lift(self.governance.unpause(ctx, fx))
    }

    /// Whether writes are frozen.
    pub fn is_paused(&self) -> (b: bool)
        ensures
            b == self@.governance.paused,
    {
        self.governance.paused
    }

    /// Registers a curator, with the stake that can be slashed.
    pub fn register_curator(&mut self, fx: &mut Effects, curator: Address) -> (r: Result<
        (),
        Error,
    >)
        requires
            old(self)@.register(curator@).answer is Ok ==> old(self)@.curator_count < u32::MAX,
        ensures
            r == old(self)@.register(curator@).answer,
            final(self)@ == old(self)@.register(curator@).state,
            final(fx)@ == old(fx)@ + old(self)@.register(curator@).effects,
    {
        if self.is_paused() {
            return Err(Error::ContractPaused);
        }
        fx.authorize(&curator);
        if self.curators.has(&curator) {
            return Err(Error::CuratorAlreadyRegistered);
        }
        self.curators.set(
            curator.clone(),
            CuratorState { stake: MIN_CURATOR_STAKE, status: CuratorStatus::Active },
        );
        fx.keep(StorageKey::Curator(curator.clone()));
        self.curator_count = self.curator_count + 1;
        fx.publish_one("oracle", "curator", Value::Account(curator));
        Ok(())
    }

    /// A curator scores a dataset.
    pub fn attest_quality(
        &mut self,
        ctx: &Context,
        fx: &mut Effects,
        curator: Address,
        dataset_id: String,
        score: u32,
        rubric_hash: Hash32,
    ) -> (r: Result<(), Error>)
        requires
            ({
                let submission = Submission {
                    curator: curator@,
                    dataset_id: dataset_id@,
                    score,
                    rubric_hash: rubric_hash@,
                };
                old(self)@.attest_fault(submission) is None ==> old(self)@.quality(
                    dataset_id@,
                ).attestation_count < u32::MAX
            }),
        ensures
            ({
                let submission = Submission {
                    curator: curator@,
                    dataset_id: dataset_id@,
                    score,
                    rubric_hash: rubric_hash@,
                };
                let outcome = old(self)@.attest(ctx@, submission);
                &&& r == outcome.answer
                &&& final(self)@ == outcome.state
                &&& final(fx)@ == old(fx)@ + outcome.effects
            }),
    {
        if self.is_paused() {
            return Err(Error::ContractPaused);
        }
        fx.authorize(&curator);
        let state = match self.get_curator(&curator) {
            Err(e) => {
                return Err(e);
            },
            Ok(found) => found,
        };
        if state.status == CuratorStatus::Banned {
            return Err(Error::CuratorIsBanned);
        }
        if score > MAX_SCORE {
            return Err(Error::ScoreOutOfRange);
        }
        let attestation = QualityAttestation {
            dataset_id: dataset_id.clone(),
            curator: curator.clone(),
            score,
            rubric_hash,
            ledger: ctx.sequence,
        };
        self.attestations.set(
            AttestationKey { dataset_id: dataset_id.clone(), curator: curator.clone() },
            attestation,
        );
        fx.keep(StorageKey::Attestation(dataset_id.clone(), curator.clone()));

        let mut attesters = match self.attesters.get(&dataset_id) {
            Some(found) => found.clone(),
            None => Attesters { list: Vec::new() },
        };
        assert(attesters@ =~= old(self)@.listed(dataset_id@));
        if !attesters.has(&curator) {
            let ghost before = attesters@;
            attesters.list.push(curator.clone());
            assert(attesters@ =~= before.push(curator@));
        }
        self.attesters.set(dataset_id.clone(), attesters);
        fx.keep(StorageKey::Attesters(dataset_id.clone()));

        let quality = match self.qualities.get(&dataset_id) {
            Some(found) => found.clone(),
            None => DatasetQuality {
                dataset_id: dataset_id.clone(),
                average_score: 0,
                attestation_count: 0,
                last_updated_ledger: 0,
                tier: QualityTier::Unrated,
            },
        };
        let quality = Self::add_score(quality, score, ctx.sequence);
        let tier = quality.tier;
        self.qualities.set(dataset_id.clone(), quality);
        fx.keep(StorageKey::Quality(dataset_id.clone()));

        fx.publish_four(
            "oracle",
            "attested",
            Value::Text(dataset_id),
            Value::Account(curator),
            Value::U32(score),
            Value::Variant(tier.name()),
        );
        Ok(())
    }

    /// The aggregate after one more score.
    fn add_score(quality: DatasetQuality, score: u32, sequence: u32) -> (r: DatasetQuality)
        requires
            quality.attestation_count < u32::MAX,
            score <= MAX_SCORE,
        ensures
            r@ == quality@.with_score(score, sequence),
    {
        let average: u64 = quality.average_score as u64;
        let count: u64 = quality.attestation_count as u64;
        assert(0 <= average * count <= 0xffff_ffffu64 * 0xffff_fffeu64) by (nonlinear_arith)
            requires
                0 <= average <= 0xffff_ffff,
                0 <= count <= 0xffff_fffe,
        ;
        let total: u64 = average * count + score as u64;
        let mean: u64 = total / (count + 1);
        proof {
            lemma_mean_fits(average as int, count as int, score as int);
        }
        let mut updated = quality;
        updated.average_score = mean as u32;
        updated.attestation_count = updated.attestation_count + 1;
        updated.last_updated_ledger = sequence;
        updated.tier = Self::compute_tier(updated.average_score);
        updated
    }

    /// The aggregate of a dataset's scores.
    pub fn get_quality(&self, dataset_id: &String) -> (r: Result<DatasetQuality, Error>)
        ensures
            view_result(r) == (if self@.qualities.contains_key(dataset_id@) {
                Ok::<QualityModel, Error>(self@.qualities[dataset_id@])
            } else {
                Err(Error::NoQualityData)
            }),
    {
        match self.qualities.get(dataset_id) {
            Some(found) => Ok(found.clone()),
            None => Err(Error::NoQualityData),
        }
    }

    /// A curator's stake and standing.
    pub fn get_curator(&self, curator: &Address) -> (r: Result<CuratorState, Error>)
        ensures
            r == (if self@.curators.contains_key(curator@) {
                Ok::<CuratorState, Error>(self@.curators[curator@])
            } else {
                Err(Error::CuratorNotRegistered)
            }),
    {
        match self.curators.get(curator) {
            Some(found) => Ok(*found),
            None => Err(Error::CuratorNotRegistered),
        }
    }

    /// What slashing has brought in so far.
    pub fn treasury_balance(&self) -> (n: i128)
        ensures
            n == self@.treasury,
    {
        self.treasury
    }

    /// The admin slashes a curator whose score for a dataset is more than
    /// thirty points off the median of all its scores.
    pub fn slash_curator(
        &mut self,
        fx: &mut Effects,
        curator: Address,
        dataset_id: String,
    ) -> (r: Result<(), Error>)
        requires
            old(self)@.slash_fits(curator@, dataset_id@),
        ensures
            r == old(self)@.slash(curator@, dataset_id@).answer,
            final(self)@ == old(self)@.slash(curator@, dataset_id@).state,
            final(fx)@ == old(fx)@ + old(self)@.slash(curator@, dataset_id@).effects,
    {
        if self.is_paused() {
            return Err(Error::ContractPaused);
        }
        if self.governance.authorize_admin(fx).is_err() {
            return Err(Error::NotInitialized);
        }
        let mut state = match self.get_curator(&curator) {
            Err(e) => {
                return Err(e);
            },
            Ok(found) => found,
        };
        if state.status == CuratorStatus::Banned {
            return Err(Error::CuratorAlreadyBanned);
        }
        let key = AttestationKey { dataset_id: dataset_id.clone(), curator: curator.clone() };
        let score: u32 = match self.attestations.get(&key) {
            None => {
                return Err(Error::NoAttestationOfCurator);
            },
            Some(found) => found.score,
        };
        if !self.attesters.has(&dataset_id) {
            return Err(Error::NoAttestationsForDataset);
        }
        let scores = match self.collect_scores(&dataset_id) {
            None => {
                return Err(Error::MissingAttestation);
            },
            Some(scores) => scores,
        };
        if Self::distance(score, median_of(&scores)) <= SLASH_DEVIATION_THRESHOLD {
            return Err(Error::WithinTolerance);
        }
        let amount: i128 = state.stake * SLASH_BPS / TOTAL_BPS;
        state.stake = state.stake - amount;
        state.status = match state.status {
            CuratorStatus::Active => CuratorStatus::SlashWarning,
            _ => CuratorStatus::Banned,
        };
        self.curators.set(curator.clone(), state);
        fx.keep(StorageKey::Curator(curator.clone()));
        self.treasury = self.treasury + amount;

        fx.publish_four(
            "oracle",
            "slashed",
            Value::Account(curator),
            Value::Text(dataset_id),
            Value::I128(amount),
            Value::Variant(state.status.name()),
        );
        Ok(())
    }

    fn distance(a: u32, b: u32) -> (n: u32)
        ensures
            n == (if a >= b {
                a - b
            } else {
                b - a
            }),
    {
        if a >= b {
            a - b
        } else {
            b - a
        }
    }

    /// Whether machine numbers can compute a slash as far as it gets.
    pub fn can_compute_slash(&self, curator: &Address, dataset_id: &String) -> (b: bool)
        ensures
            b == self@.slash_fits(curator@, dataset_id@),
    {
        if self.is_paused() || self.governance.admin.is_none() {
            return true;
        }
        let state = match self.curators.get(curator) {
            None => {
                return true;
            },
            Some(found) => *found,
        };
        if state.status == CuratorStatus::Banned {
            return true;
        }
        let key = AttestationKey { dataset_id: dataset_id.clone(), curator: curator.clone() };
        let score: u32 = match self.attestations.get(&key) {
            None => {
                return true;
            },
            Some(found) => found.score,
        };
        if !self.attesters.has(dataset_id) {
            return true;
        }
        let scores = match self.collect_scores(dataset_id) {
            None => {
                return true;
            },
            Some(scores) => scores,
        };
        if !has_median_of(&scores) {
            return false;
        }
        if Self::distance(score, median_of(&scores)) <= SLASH_DEVIATION_THRESHOLD {
            return true;
        }
        if state.stake < 0 {
            return false;
        }
        match state.stake.checked_mul(SLASH_BPS) {
            None => false,
            Some(product) => self.treasury.checked_add(product / TOTAL_BPS).is_some(),
        }
    }

    /// The scores of those who are listed for a dataset, unless one of them
    /// has none.
    fn collect_scores(&self, dataset_id: &String) -> (r: Option<Vec<u32>>)
        requires
            self@.attesters.contains_key(dataset_id@),
        ensures
            match r {
                Some(scores) => self@.all_scored(dataset_id@) && scores@ == self@.scores(
                    dataset_id@,
                ),
                None => !self@.all_scored(dataset_id@),
            },
    {
        let ghost listed = self@.attesters[dataset_id@];
        let mut scores: Vec<u32> = Vec::new();
        match self.attesters.get(dataset_id) {
            None => {},
            Some(attesters) => {
                let mut i: usize = 0;
                while i < attesters.list.len()
                    invariant
                        attesters@ == listed,
                        listed == self@.attesters[dataset_id@],
                        i <= listed.len(),
                        scores@.len() == i,
                        forall|j: int|
                            0 <= j < i ==> self@.attestations.contains_key(
                                (dataset_id@, #[trigger] listed[j]),
                            ) && scores@[j] == self@.scores(dataset_id@)[j],
                    decreases listed.len() - i,
                {
                    assert(listed[i as int] == attesters.list@[i as int]@);
                    let key = AttestationKey {
                        dataset_id: dataset_id.clone(),
                        curator: attesters.list[i].clone(),
                    };
                    match self.attestations.get(&key) {
                        None => {
                            assert(!self@.all_scored(dataset_id@));
                            return None;
                        },
                        Some(found) => {
                            scores.push(found.score);
                        },
                    }
                    i = i + 1;
                }
            },
        }
        assert(scores@ =~= self@.scores(dataset_id@)) by {
            assert forall|j: int| 0 <= j < scores@.len() implies scores@[j] == self@.scores(
                dataset_id@,
            )[j] by {
                assert(self@.attestations.contains_key((dataset_id@, listed[j])));
            }
        }
        Some(scores)
    }

    /// Keeps a dataset's aggregate for another full window. Anyone may ask.
    pub fn renew_quality_ttl(&self, fx: &mut Effects, dataset_id: String) -> (r: Result<(), Error>)
        ensures
            r == self@.renew(dataset_id@).answer,
            final(fx)@ == old(fx)@ + self@.renew(dataset_id@).effects,
    {
        if !self.qualities.has(&dataset_id) {
            return Err(Error::NoQualityData);
        }
        fx.keep(StorageKey::Quality(dataset_id));
        Ok(())
    }

    /// What a dataset's royalties are multiplied by, in basis points.
    pub fn royalty_multiplier_bps(&self, dataset_id: &String) -> (bps: u32)
        ensures
            bps == self@.multiplier(dataset_id@),
    {
        match self.qualities.get(dataset_id) {
            Some(quality) => match quality.tier {
                QualityTier::Platinum => 15_000,
                QualityTier::Gold => 12_500,
                QualityTier::Silver => 10_000,
                QualityTier::Bronze => 7_500,
                QualityTier::Unrated => 10_000,
            },
            None => 10_000,
        }
    }

    /// The tier of an average score.
    pub fn compute_tier(score: u32) -> (tier: QualityTier)
        ensures
            tier == tier_of(score),
    {
        if score == 0 {
            QualityTier::Unrated
        } else if score < 40 {
            QualityTier::Bronze
        } else if score < 70 {
            QualityTier::Silver
        } else if score < 85 {
            QualityTier::Gold
        } else {
            QualityTier::Platinum
        }
    }

    /// The version of this contract.
    pub fn version() -> (n: u32)
        ensures
            n == 3,
    {
        3
    }

    /// The admin replaces the contract's code.
    pub fn upgrade(&self, ctx: &Context, fx: &mut Effects, new_wasm_hash: Hash32) -> (r: Result<
        (),
        Error,
    >)
        ensures
            r == lifted_answer(self@.governance.upgrade(ctx@, new_wasm_hash@).answer),
            final(fx)@ == old(fx)@ + self@.governance.upgrade(ctx@, new_wasm_hash@).effects,
    {
        lift(self.governance.upgrade(ctx, fx, new_wasm_hash))
    }
}

} // verus!
