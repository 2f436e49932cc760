//! Dataset commissions: a company escrows a bounty for data in some language,
//! and a contributor is paid from it on delivery, at once or in milestones.

use crate::governance::{Governance, GovernanceError, GovernanceModel, GovernanceOutcome};
use crate::host::{accept, copy_address, copy_text, event, keep, refuse, view_opt, view_result,
    zero_hash, Address, Context, ContextModel, EffectModel, Effects, Hash32, KeyModel, Outcome,
    StorageKey, Value, ValueModel};
use crate::table::{Key, Table};
use crate::text::{numbered, numbered_text};
use vstd::prelude::*;

pub mod calls;
pub mod laws;

verus! {

/// Why a call is refused.
#[derive(Clone, Copy, Debug, PartialEq, Eq, PartialOrd, Ord, Structural)]
pub enum Error {
    AlreadyInitialized,
    NotInitialized,
    NoAdminProposalPending,
    MetadataHashCannotBeZero,
    BountyMustBePositive,
    DeadlineMustBeInTheFuture,
    CommissionNotFound,
    CommissionNotOpen,
    CommissionDeadlinePassed,
    CommissionAlreadyFulfilled,
    MustProvideAtLeastOneMilestone,
    MilestoneAmountMustBePositive,
    NewMilestonesCannotStartReleased,
    MilestoneAmountsMustSumToBounty,
    CommissionHasNoFulfillerYet,
    MilestoneIndexOutOfRange,
    MilestoneAlreadyReleased,
    OnlyCommissionerCanRaiseDispute,
    NoArbiterSet,
    CommissionNotDisputed,
    /// A write was asked of a frozen contract.
    ContractPaused,
    /// `pause` was asked of a contract that is frozen.
    AlreadyPaused,
    /// `unpause` was asked of a contract that is not frozen.
    NotPaused,
}

impl Error {
    /// The number under which callers see the error.
    pub open spec fn spec_code(self) -> u32 {
        match self {
            Error::AlreadyInitialized => 1,
            Error::NotInitialized => 2,
            Error::NoAdminProposalPending => 3,
            Error::MetadataHashCannotBeZero => 4,
            Error::BountyMustBePositive => 5,
            Error::DeadlineMustBeInTheFuture => 6,
            Error::CommissionNotFound => 7,
            Error::CommissionNotOpen => 8,
            Error::CommissionDeadlinePassed => 9,
            Error::CommissionAlreadyFulfilled => 10,
            Error::MustProvideAtLeastOneMilestone => 11,
            Error::MilestoneAmountMustBePositive => 12,
            Error::NewMilestonesCannotStartReleased => 13,
            Error::MilestoneAmountsMustSumToBounty => 14,
            Error::CommissionHasNoFulfillerYet => 15,
            Error::MilestoneIndexOutOfRange => 16,
            Error::MilestoneAlreadyReleased => 17,
            Error::OnlyCommissionerCanRaiseDispute => 18,
            Error::NoArbiterSet => 19,
            Error::CommissionNotDisputed => 20,
            Error::ContractPaused => 21,
            Error::AlreadyPaused => 22,
            Error::NotPaused => 23,
        }
    }

    /// What the error says.
    pub open spec fn spec_message(self) -> Seq<char> {
        match self {
            Error::AlreadyInitialized => "already initialized"@,
            Error::NotInitialized => "not initialized"@,
            Error::NoAdminProposalPending => "no admin proposal pending"@,
            Error::MetadataHashCannotBeZero => "metadata hash cannot be zero"@,
            Error::BountyMustBePositive => "bounty must be positive"@,
            Error::DeadlineMustBeInTheFuture => "deadline must be in the future"@,
            Error::CommissionNotFound => "commission not found"@,
            Error::CommissionNotOpen => "commission not open"@,
            Error::CommissionDeadlinePassed => "commission deadline passed"@,
            Error::CommissionAlreadyFulfilled => "commission already fulfilled"@,
            Error::MustProvideAtLeastOneMilestone => "must provide at least one milestone"@,
            Error::MilestoneAmountMustBePositive => "milestone amount must be positive"@,
            Error::NewMilestonesCannotStartReleased => "new milestones cannot start released"@,
            Error::MilestoneAmountsMustSumToBounty => "milestone amounts must sum to the bounty amount"@,
            Error::CommissionHasNoFulfillerYet => "commission has no fulfiller yet"@,
            Error::MilestoneIndexOutOfRange => "milestone index out of range"@,
            Error::MilestoneAlreadyReleased => "milestone already released"@,
            Error::OnlyCommissionerCanRaiseDispute => "only the commissioner can raise a dispute"@,
            Error::NoArbiterSet => "no arbiter set"@,
            Error::CommissionNotDisputed => "commission not disputed"@,
            Error::ContractPaused => "contract paused"@,
            Error::AlreadyPaused => "already paused"@,
            Error::NotPaused => "not paused"@,
        }
    }

    /// The error by which this contract reports one of its admin's side.
    pub open spec fn of_governance(error: GovernanceError) -> Error {
        match error {
            GovernanceError::AlreadyInitialized => Error::AlreadyInitialized,
            GovernanceError::NotInitialized => Error::NotInitialized,
            GovernanceError::NoAdminProposalPending => Error::NoAdminProposalPending,
            GovernanceError::AlreadyPaused => Error::AlreadyPaused,
            GovernanceError::NotPaused => Error::NotPaused,
        }
    }

    /// The number under which callers see the error.
    pub fn code(&self) -> (r: u32)
        ensures
            r == self.spec_code(),
    {
        match self {
            Error::AlreadyInitialized => 1,
            Error::NotInitialized => 2,
            Error::NoAdminProposalPending => 3,
            Error::MetadataHashCannotBeZero => 4,
            Error::BountyMustBePositive => 5,
            Error::DeadlineMustBeInTheFuture => 6,
            Error::CommissionNotFound => 7,
            Error::CommissionNotOpen => 8,
            Error::CommissionDeadlinePassed => 9,
            Error::CommissionAlreadyFulfilled => 10,
            Error::MustProvideAtLeastOneMilestone => 11,
            Error::MilestoneAmountMustBePositive => 12,
            Error::NewMilestonesCannotStartReleased => 13,
            Error::MilestoneAmountsMustSumToBounty => 14,
            Error::CommissionHasNoFulfillerYet => 15,
            Error::MilestoneIndexOutOfRange => 16,
            Error::MilestoneAlreadyReleased => 17,
            Error::OnlyCommissionerCanRaiseDispute => 18,
            Error::NoArbiterSet => 19,
            Error::CommissionNotDisputed => 20,
            Error::ContractPaused => 21,
            Error::AlreadyPaused => 22,
            Error::NotPaused => 23,
        }
    }

    /// What the error says.
    pub fn message(&self) -> (r: &'static str)
        ensures
            r@ == self.spec_message(),
    {
        match self {
            Error::AlreadyInitialized => "already initialized",
            Error::NotInitialized => "not initialized",
            Error::NoAdminProposalPending => "no admin proposal pending",
            Error::MetadataHashCannotBeZero => "metadata hash cannot be zero",
            Error::BountyMustBePositive => "bounty must be positive",
            Error::DeadlineMustBeInTheFuture => "deadline must be in the future",
            Error::CommissionNotFound => "commission not found",
            Error::CommissionNotOpen => "commission not open",
            Error::CommissionDeadlinePassed => "commission deadline passed",
            Error::CommissionAlreadyFulfilled => "commission already fulfilled",
            Error::MustProvideAtLeastOneMilestone => "must provide at least one milestone",
            Error::MilestoneAmountMustBePositive => "milestone amount must be positive",
            Error::NewMilestonesCannotStartReleased => "new milestones cannot start released",
            Error::MilestoneAmountsMustSumToBounty => "milestone amounts must sum to the bounty amount",
            Error::CommissionHasNoFulfillerYet => "commission has no fulfiller yet",
            Error::MilestoneIndexOutOfRange => "milestone index out of range",
            Error::MilestoneAlreadyReleased => "milestone already released",
            Error::OnlyCommissionerCanRaiseDispute => "only the commissioner can raise a dispute",
            Error::NoArbiterSet => "no arbiter set",
            Error::CommissionNotDisputed => "commission not disputed",
            Error::ContractPaused => "contract paused",
            Error::AlreadyPaused => "already paused",
            Error::NotPaused => "not paused",
        }
    }
}

fn lift(answer: Result<(), GovernanceError>) -> (r: Result<(), Error>)
    ensures
        r == lifted_answer(answer),
{
    match answer {
        Ok(_) => Ok(()),
        Err(GovernanceError::AlreadyInitialized) => Err(Error::AlreadyInitialized),
        Err(GovernanceError::NotInitialized) => Err(Error::NotInitialized),
        Err(GovernanceError::NoAdminProposalPending) => Err(Error::NoAdminProposalPending),
        Err(GovernanceError::AlreadyPaused) => Err(Error::AlreadyPaused),
        Err(GovernanceError::NotPaused) => Err(Error::NotPaused),
    }
}

/// An answer of the admin's side, as this contract reports it.
pub open spec fn lifted_answer(answer: Result<(), GovernanceError>) -> Result<(), Error> {
    match answer {
        Ok(_) => Ok(()),
        Err(e) => Err(Error::of_governance(e)),
    }
}

/// A part of a bounty that is paid on its own, once its deliverable has been
/// verified.
#[derive(Clone, Copy, Debug, PartialEq, Eq)]
pub struct Milestone {
    /// The document that describes the deliverable.
    pub description_hash: Hash32,
    pub amount: i128,
    pub released: bool,
}

/// Where a commission stands.
#[derive(Clone, Copy, Debug, PartialEq, Eq, Structural)]
pub enum CommissionState {
    Open,
    Fulfilled,
    Cancelled,
    Expired,
    Disputed,
}

/// A commission, with its bounty in the smallest unit of its token.
#[derive(Debug, PartialEq, Eq)]
pub struct Commission {
    pub id: String,
    /// Who posted the bounty.
    pub commissioner: Address,
    pub language_code: String,
    /// The document with the requirements.
    pub description_hash: Hash32,
    pub bounty_token: Address,
    pub bounty_amount: i128,
    /// Empty until milestones are set; while it is, fulfilment pays the whole
    /// bounty at once.
    pub milestones: Vec<Milestone>,
    pub min_sample_count: u32,
    pub min_duration_seconds: u32,
    pub deadline_ledger: u32,
    pub state: CommissionState,
    pub fulfiller: Option<Address>,
    pub fulfilled_dataset_id: Option<String>,
}

#[verifier::ext_equal]
pub struct CommissionModel {
    pub id: Seq<char>,
    pub commissioner: Seq<char>,
    pub language_code: Seq<char>,
    pub description_hash: Seq<u8>,
    pub bounty_token: Seq<char>,
    pub bounty_amount: i128,
    pub milestones: Seq<Milestone>,
    pub min_sample_count: u32,
    pub min_duration_seconds: u32,
    pub deadline_ledger: u32,
    pub state: CommissionState,
    pub fulfiller: Option<Seq<char>>,
    pub fulfilled_dataset_id: Option<Seq<char>>,
}

impl View for Commission {
    type V = CommissionModel;

    open spec fn view(&self) -> CommissionModel {
        CommissionModel {
            id: self.id@,
            commissioner: self.commissioner@,
            language_code: self.language_code@,
            description_hash: self.description_hash@,
            bounty_token: self.bounty_token@,
            bounty_amount: self.bounty_amount,
            milestones: self.milestones@,
            min_sample_count: self.min_sample_count,
            min_duration_seconds: self.min_duration_seconds,
            deadline_ledger: self.deadline_ledger,
            state: self.state,
            fulfiller: view_opt(self.fulfiller),
            fulfilled_dataset_id: view_opt(self.fulfilled_dataset_id),
        }
    }
}

impl Clone for Commission {
    fn clone(&self) -> (r: Self)
        ensures
            r@ == self@,
    {
        let milestones = self.milestones.clone();
        assert(milestones@ =~= self.milestones@);
        Commission {
            id: self.id.clone(),
            commissioner: self.commissioner.clone(),
            language_code: self.language_code.clone(),
            description_hash: self.description_hash,
            bounty_token: self.bounty_token.clone(),
            bounty_amount: self.bounty_amount,
            milestones,
            min_sample_count: self.min_sample_count,
            min_duration_seconds: self.min_duration_seconds,
            deadline_ledger: self.deadline_ledger,
            state: self.state,
            fulfiller: copy_address(&self.fulfiller),
            fulfilled_dataset_id: copy_text(&self.fulfilled_dataset_id),
        }
    }
}

/// The amounts of all milestones together.
pub open spec fn total(milestones: Seq<Milestone>) -> int
    decreases milestones.len(),
{
    if milestones.len() == 0 {
        0
    } else {
        total(milestones.drop_last()) + milestones.last().amount
    }
}

/// The amounts of the released milestones together.
pub open spec fn released_total(milestones: Seq<Milestone>) -> int
    decreases milestones.len(),
{
    if milestones.len() == 0 {
        0
    } else {
        released_total(milestones.drop_last()) + (if milestones.last().released {
            milestones.last().amount as int
        } else {
            0
        })
    }
}

/// Whether every milestone has been released.
pub open spec fn all_released(milestones: Seq<Milestone>) -> bool {
    forall|i: int| 0 <= i < milestones.len() ==> (#[trigger] milestones[i]).released
}

/// Whether no milestone has been released.
pub open spec fn none_released(milestones: Seq<Milestone>) -> bool {
    forall|i: int| 0 <= i < milestones.len() ==> !(#[trigger] milestones[i]).released
}

/// Whether a milestone may stand in a new set.
pub open spec fn fit_for_new(milestone: Milestone) -> bool {
    milestone.amount > 0 && !milestone.released
}

/// What is wrong with `milestones` from place `from` on, as a set of tranches
/// of `bounty`: the first milestone that does not fit, or else the total.
pub open spec fn milestone_fault(milestones: Seq<Milestone>, bounty: int, from: int) -> Option<
    Error,
>
    decreases milestones.len() - from,
{
    if from >= milestones.len() {
        if total(milestones) != bounty {
            Some(Error::MilestoneAmountsMustSumToBounty)
        } else {
            None
        }
    } else if milestones[from].amount <= 0 {
        Some(Error::MilestoneAmountMustBePositive)
    } else if milestones[from].released {
        Some(Error::NewMilestonesCannotStartReleased)
    } else {
        milestone_fault(milestones, bounty, from + 1)
    }
}

/// Whether the running total of `milestones` stays within an `i128`, up to the
/// first one that does not fit.
pub open spec fn running_total_fits(milestones: Seq<Milestone>) -> bool {
    forall|n: int|
        0 <= n <= milestones.len() && (forall|i: int|
            0 <= i < n ==> fit_for_new(#[trigger] milestones[i])) ==> total(
            #[trigger] milestones.take(n),
        ) <= i128::MAX
}

impl CommissionModel {
    /// What every stored commission has: a positive bounty, and either no
    /// milestones or positive ones that add up to it.
    pub open spec fn sound(self) -> bool {
        &&& self.bounty_amount > 0
        &&& self.milestones.len() > 0 ==> total(self.milestones) == self.bounty_amount
        &&& forall|i: int|
            0 <= i < self.milestones.len() ==> (#[trigger] self.milestones[i]).amount > 0
    }

    /// What is left of the bounty after the released milestones.
    pub open spec fn remaining(self) -> int {
        self.bounty_amount - released_total(self.milestones)
    }
}

impl Commission {
    /// Whether the bounty is positive and any milestones are positive and add
    /// up to it.
    pub fn is_sound(&self) -> (b: bool)
        ensures
            b == self@.sound(),
    {
        if self.bounty_amount <= 0 {
            return false;
        }
        let mut sum: i128 = 0;
        let mut i: usize = 0;
        let ghost ms = self.milestones@;
        assert(ms.take(0) =~= Seq::<Milestone>::empty());
        while i < self.milestones.len()
            invariant
                ms == self.milestones@,
                i <= ms.len(),
                self.bounty_amount > 0,
                0 <= sum <= self.bounty_amount,
                sum == total(ms.take(i as int)),
                forall|j: int| 0 <= j < i ==> (#[trigger] ms[j]).amount > 0,
            decreases ms.len() - i,
        {
            let amount: i128 = self.milestones[i].amount;
            proof {
                assert(ms.take(i + 1).drop_last() =~= ms.take(i as int));
                assert(ms.take(ms.len() as int) =~= ms);
            }
            if amount <= 0 {
                assert(ms[i as int].amount <= 0);
                return false;
            }
            if amount > self.bounty_amount - sum {
                proof {
                    assert(total(ms.take(i + 1)) > self.bounty_amount);
                    if forall|j: int| 0 <= j < ms.len() ==> (#[trigger] ms[j]).amount > 0 {
                        laws::lemma_total_grows(ms, i + 1, ms.len() as int);
                    }
                }
                return false;
            }
            sum = sum + amount;
            i = i + 1;
        }
        assert(ms.take(ms.len() as int) =~= ms);
        self.milestones.len() == 0 || sum == self.bounty_amount
    }
}

/// The commissions contract.
#[derive(Clone, Debug)]
pub struct DataCommission {
    pub governance: Governance,
    /// Who rules on disputes.
    pub arbiter: Option<Address>,
    /// How many commissions were posted.
    pub count: u32,
    /// How many were posted for each language.
    pub language_counts: Table<String, Counter>,
    pub commissions: Table<String, Commission>,
}

/// A stored number.
#[derive(Clone, Copy, Debug, PartialEq, Eq)]
pub struct Counter {
    pub value: u32,
}

impl View for Counter {
    type V = u32;

    open spec fn view(&self) -> u32 {
        self.value
    }
}

#[verifier::ext_equal]
pub struct DataCommissionModel {
    pub governance: GovernanceModel,
    pub arbiter: Option<Seq<char>>,
    pub count: u32,
    pub language_counts: Map<Seq<char>, u32>,
    pub commissions: Map<Seq<char>, CommissionModel>,
}

impl View for DataCommission {
    type V = DataCommissionModel;

    open spec fn view(&self) -> DataCommissionModel {
        DataCommissionModel {
            governance: self.governance@,
            arbiter: view_opt(self.arbiter),
            count: self.count,
            language_counts: self.language_counts@,
            commissions: self.commissions@,
        }
    }
}

pub type CallOutcome = Outcome<DataCommissionModel, (), Error>;

pub type PostOutcome = Outcome<DataCommissionModel, Seq<char>, Error>;

/// The id of the commission numbered `n`.
pub open spec fn commission_id(n: nat) -> Seq<char> {
    numbered_text("com_"@, n)
}

/// What a company asks for when it posts a commission.
#[verifier::ext_equal]
pub struct Terms {
    pub commissioner: Seq<char>,
    pub language_code: Seq<char>,
    pub description_hash: Seq<u8>,
    pub bounty_token: Seq<char>,
    pub bounty_amount: i128,
    pub min_sample_count: u32,
    pub min_duration_seconds: u32,
    pub deadline_ledger: u32,
}

impl DataCommissionModel {
    /// Before anyone initialized the contract.
    pub open spec fn fresh() -> Self {
        DataCommissionModel {
            governance: GovernanceModel::fresh(),
            arbiter: None,
            count: 0,
            language_counts: Map::empty(),
            commissions: Map::empty(),
        }
    }

    /// What the admin's side answers, as an outcome of the contract.
    pub open spec fn governed(self, outcome: GovernanceOutcome) -> CallOutcome {
        Outcome {
            answer: lifted_answer(outcome.answer),
            state: DataCommissionModel { governance: outcome.state, ..self },
            effects: outcome.effects,
        }
    }

    pub open spec fn with_commission(self, id: Seq<char>, commission: CommissionModel) -> Self {
        DataCommissionModel { commissions: self.commissions.insert(id, commission), ..self }
    }

    /// How many commissions were posted for `language`.
    pub open spec fn language_count(self, language: Seq<char>) -> u32 {
        if self.language_counts.contains_key(language) {
            self.language_counts[language]
        } else {
            0
        }
    }

    pub open spec fn initialize(self, admin: Seq<char>) -> CallOutcome {
        let outcome = self.governed(self.governance.initialize(admin));
        if outcome.answer is Ok {
            Outcome { state: DataCommissionModel { count: 0, ..outcome.state }, ..outcome }
        } else {
            outcome
        }
    }

    // Posting.

    pub open spec fn post_fault(self, ctx: ContextModel, terms: Terms) -> Option<Error> {
        if self.governance.paused {
            Some(Error::ContractPaused)
        } else if terms.description_hash == zero_hash() {
            Some(Error::MetadataHashCannotBeZero)
        } else if terms.bounty_amount <= 0 {
            Some(Error::BountyMustBePositive)
        } else if terms.deadline_ledger <= ctx.sequence {
            Some(Error::DeadlineMustBeInTheFuture)
        } else {
            None
        }
    }

    /// Whether the counters have room for one more commission.
    pub open spec fn has_room(self, language: Seq<char>) -> bool {
        self.count < u32::MAX && self.language_count(language) < u32::MAX
    }

    /// The commission that is posted next.
    pub open spec fn posted(self, terms: Terms) -> CommissionModel {
        CommissionModel {
            id: commission_id((self.count + 1) as nat),
            commissioner: terms.commissioner,
            language_code: terms.language_code,
            description_hash: terms.description_hash,
            bounty_token: terms.bounty_token,
            bounty_amount: terms.bounty_amount,
            milestones: seq![],
            min_sample_count: terms.min_sample_count,
            min_duration_seconds: terms.min_duration_seconds,
            deadline_ledger: terms.deadline_ledger,
            state: CommissionState::Open,
            fulfiller: None,
            fulfilled_dataset_id: None,
        }
    }

    pub open spec fn post(self, ctx: ContextModel, terms: Terms) -> PostOutcome {
        let asked = if self.governance.paused {
            seq![]
        } else {
            seq![EffectModel::Authorize(terms.commissioner)]
        };
        let id = commission_id((self.count + 1) as nat);
        match self.post_fault(ctx, terms) {
            Some(e) => refuse(self, asked, e),
            None => accept(
                DataCommissionModel {
                    count: (self.count + 1) as u32,
                    language_counts: self.language_counts.insert(
                        terms.language_code,
                        (self.language_count(terms.language_code) + 1) as u32,
                    ),
                    ..self.with_commission(id, self.posted(terms))
                },
                asked + seq![
                    EffectModel::Transfer {
                        token: terms.bounty_token,
                        from: terms.commissioner,
                        to: ctx.contract,
                        amount: terms.bounty_amount,
                    },
                    keep(KeyModel::Commission(id)),
                    event(
                        "comm"@,
                        "posted"@,
                        seq![
                            ValueModel::Text(id),
                            ValueModel::Text(terms.language_code),
                            ValueModel::I128(terms.bounty_amount),
                        ],
                    ),
                ],
                id,
            ),
        }
    }

    // Fulfilment.

    /// The authorization that a request to the admin asks for, when the
    /// contract is not frozen.
    pub open spec fn admin_asked(self) -> Seq<EffectModel> {
        if self.governance.paused {
            seq![]
        } else {
            self.governance.admin_asked()
        }
    }

    pub open spec fn fulfil_fault(self, ctx: ContextModel, id: Seq<char>) -> Option<Error> {
        if self.governance.paused {
            Some(Error::ContractPaused)
        } else if self.governance.admin is None {
            Some(Error::NotInitialized)
        } else if !self.commissions.contains_key(id) {
            Some(Error::CommissionNotFound)
        } else if self.commissions[id].state != CommissionState::Open {
            Some(Error::CommissionNotOpen)
        } else if ctx.sequence > self.commissions[id].deadline_ledger {
            Some(Error::CommissionDeadlinePassed)
        } else {
            None
        }
    }

    /// A commission without milestones is paid at once. One with milestones
    /// stays open, and its bounty in escrow, until they are released.
    pub open spec fn fulfil(
        self,
        ctx: ContextModel,
        id: Seq<char>,
        fulfiller: Seq<char>,
        dataset_id: Seq<char>,
    ) -> CallOutcome {
        let c = self.commissions[id];
        let at_once = c.milestones.len() == 0;
        match self.fulfil_fault(ctx, id) {
            Some(e) => refuse(self, self.admin_asked(), e),
            None => accept(
                self.with_commission(
                    id,
                    CommissionModel {
                        fulfiller: Some(fulfiller),
                        fulfilled_dataset_id: Some(dataset_id),
                        state: if at_once {
                            CommissionState::Fulfilled
                        } else {
                            c.state
                        },
                        ..c
                    },
                ),
                self.admin_asked() + (if at_once {
                    seq![
                        EffectModel::Transfer {
                            token: c.bounty_token,
                            from: ctx.contract,
                            to: fulfiller,
                            amount: c.bounty_amount,
                        },
                    ]
                } else {
                    seq![]
                }) + seq![
                    keep(KeyModel::Commission(id)),
                    event(
                        "comm"@,
                        "fulfilled"@,
                        seq![
                            ValueModel::Text(id),
                            ValueModel::Account(fulfiller),
                            ValueModel::Text(dataset_id),
                            ValueModel::I128(c.bounty_amount),
                        ],
                    ),
                ],
                (),
            ),
        }
    }

    // Cancellation.

    pub open spec fn cancel_fault(self, id: Seq<char>) -> Option<Error> {
        if self.governance.paused {
            Some(Error::ContractPaused)
        } else if !self.commissions.contains_key(id) {
            Some(Error::CommissionNotFound)
        } else if self.commissions[id].state != CommissionState::Open {
            Some(Error::CommissionNotOpen)
        } else {
            None
        }
    }

    /// Until the deadline only the commissioner may cancel; after it, anyone.
    /// What the released milestones left of the bounty goes back.
    pub open spec fn cancel(self, ctx: ContextModel, id: Seq<char>) -> CallOutcome {
        let c = self.commissions[id];
        match self.cancel_fault(id) {
            Some(e) => refuse(self, seq![], e),
            None => accept(
                self.with_commission(
                    id,
                    CommissionModel { state: CommissionState::Cancelled, ..c },
                ),
                (if ctx.sequence <= c.deadline_ledger {
                    seq![EffectModel::Authorize(c.commissioner)]
                } else {
                    seq![]
                }) + (if c.remaining() > 0 {
                    seq![
                        EffectModel::Transfer {
                            token: c.bounty_token,
                            from: ctx.contract,
                            to: c.commissioner,
                            amount: c.remaining() as i128,
                        },
                    ]
                } else {
                    seq![]
                }) + seq![
                    keep(KeyModel::Commission(id)),
                    event("comm"@, "cancelled"@, seq![ValueModel::Text(id)]),
                ],
                (),
            ),
        }
    }

    // Milestones.

    /// What keeps a new set of milestones from being looked at.
    pub open spec fn milestones_closed(self, id: Seq<char>) -> Option<Error> {
        if self.governance.paused {
            Some(Error::ContractPaused)
        } else if !self.commissions.contains_key(id) {
            Some(Error::CommissionNotFound)
        } else if self.commissions[id].state != CommissionState::Open
            || self.commissions[id].fulfiller is Some {
            Some(Error::CommissionAlreadyFulfilled)
        } else {
            None
        }
    }

    pub open spec fn set_milestones_fault(
        self,
        id: Seq<char>,
        milestones: Seq<Milestone>,
    ) -> Option<Error> {
        match self.milestones_closed(id) {
            Some(e) => Some(e),
            None => if milestones.len() == 0 {
                Some(Error::MustProvideAtLeastOneMilestone)
            } else {
                milestone_fault(milestones, self.commissions[id].bounty_amount as int, 0)
            },
        }
    }

    pub open spec fn set_milestones(
        self,
        id: Seq<char>,
        milestones: Seq<Milestone>,
    ) -> CallOutcome {
        let c = self.commissions[id];
        let asked = if self.governance.paused || !self.commissions.contains_key(id) {
            seq![]
        } else {
            seq![EffectModel::Authorize(c.commissioner)]
        };
        match self.set_milestones_fault(id, milestones) {
            Some(e) => refuse(self, asked, e),
            None => accept(
                self.with_commission(id, CommissionModel { milestones, ..c }),
                asked + seq![
                    keep(KeyModel::Commission(id)),
                    event("comm"@, "mstones"@, seq![ValueModel::Text(id)]),
                ],
                (),
            ),
        }
    }

    pub open spec fn release_fault(self, id: Seq<char>, index: u32) -> Option<Error> {
        if self.governance.paused {
            Some(Error::ContractPaused)
        } else if self.governance.admin is None {
            Some(Error::NotInitialized)
        } else if !self.commissions.contains_key(id) {
            Some(Error::CommissionNotFound)
        } else if self.commissions[id].state != CommissionState::Open {
            Some(Error::CommissionNotOpen)
        } else if self.commissions[id].fulfiller is None {
            Some(Error::CommissionHasNoFulfillerYet)
        } else if index >= self.commissions[id].milestones.len() {
            Some(Error::MilestoneIndexOutOfRange)
        } else if self.commissions[id].milestones[index as int].released {
            Some(Error::MilestoneAlreadyReleased)
        } else {
            None
        }
    }

    /// Pays one milestone to the fulfiller. The last one completes the
    /// commission.
    pub open spec fn release(self, ctx: ContextModel, id: Seq<char>, index: u32) -> CallOutcome {
        let c = self.commissions[id];
        let milestone = c.milestones[index as int];
        let milestones = c.milestones.update(
            index as int,
            Milestone { released: true, ..milestone },
        );
        match self.release_fault(id, index) {
            Some(e) => refuse(self, self.admin_asked(), e),
            None => accept(
                self.with_commission(
                    id,
                    CommissionModel {
                        milestones,
                        state: if all_released(milestones) {
                            CommissionState::Fulfilled
                        } else {
                            c.state
                        },
                        ..c
                    },
                ),
                self.admin_asked() + seq![
                    EffectModel::Transfer {
                        token: c.bounty_token,
                        from: ctx.contract,
                        to: c.fulfiller->0,
                        amount: milestone.amount,
                    },
                    keep(KeyModel::Commission(id)),
                    event(
                        "comm"@,
                        "mrelease"@,
                        seq![
                            ValueModel::Text(id),
                            ValueModel::U32(index),
                            ValueModel::I128(milestone.amount),
                        ],
                    ),
                ],
                (),
            ),
        }
    }

    // Disputes.

    pub open spec fn set_arbiter(self, arbiter: Seq<char>) -> CallOutcome {
        if self.governance.paused {
            refuse(self, seq![], Error::ContractPaused)
        } else if self.governance.admin is None {
            refuse(self, seq![], Error::NotInitialized)
        } else {
            accept(
                DataCommissionModel { arbiter: Some(arbiter), ..self },
                self.admin_asked() + seq![
                    event("comm"@, "arbiter"@, seq![ValueModel::Account(arbiter)]),
                ],
                (),
            )
        }
    }

    pub open spec fn raise_fault(self, id: Seq<char>, raised_by: Seq<char>) -> Option<Error> {
        if self.governance.paused {
            Some(Error::ContractPaused)
        } else if !self.commissions.contains_key(id) {
            Some(Error::CommissionNotFound)
        } else if raised_by != self.commissions[id].commissioner {
            Some(Error::OnlyCommissionerCanRaiseDispute)
        } else if self.commissions[id].state != CommissionState::Open || !none_released(
            self.commissions[id].milestones,
        ) {
            Some(Error::CommissionNotOpen)
        } else {
            None
        }
    }

    pub open spec fn raise_dispute(self, id: Seq<char>, raised_by: Seq<char>) -> CallOutcome {
        let asked = if self.governance.paused {
            seq![]
        } else {
            seq![EffectModel::Authorize(raised_by)]
        };
        match self.raise_fault(id, raised_by) {
            Some(e) => refuse(self, asked, e),
            None => accept(
                self.with_commission(
                    id,
                    CommissionModel {
                        state: CommissionState::Disputed,
                        ..self.commissions[id]
                    },
                ),
                asked + seq![
                    keep(KeyModel::Commission(id)),
                    event("comm"@, "disputed"@, seq![ValueModel::Text(id)]),
                ],
                (),
            ),
        }
    }

    pub open spec fn resolve_fault(self, id: Seq<char>) -> Option<Error> {
        if self.governance.paused {
            Some(Error::ContractPaused)
        } else if self.arbiter is None {
            Some(Error::NoArbiterSet)
        } else if !self.commissions.contains_key(id) {
            Some(Error::CommissionNotFound)
        } else if self.commissions[id].state != CommissionState::Disputed {
            Some(Error::CommissionNotDisputed)
        } else {
            None
        }
    }

    /// The whole bounty goes to the fulfiller, or back to the commissioner.
    pub open spec fn resolve(
        self,
        ctx: ContextModel,
        id: Seq<char>,
        award: bool,
        fulfiller: Seq<char>,
        dataset_id: Seq<char>,
    ) -> CallOutcome {
        let c = self.commissions[id];
        let asked = if self.governance.paused || self.arbiter is None {
            seq![]
        } else {
            seq![EffectModel::Authorize(self.arbiter->0)]
        };
        match self.resolve_fault(id) {
            Some(e) => refuse(self, asked, e),
            None => accept(
                self.with_commission(
                    id,
                    if award {
                        CommissionModel {
                            state: CommissionState::Fulfilled,
                            fulfiller: Some(fulfiller),
                            fulfilled_dataset_id: Some(dataset_id),
                            ..c
                        }
                    } else {
                        CommissionModel { state: CommissionState::Cancelled, ..c }
                    },
                ),
                asked + seq![
                    EffectModel::Transfer {
                        token: c.bounty_token,
                        from: ctx.contract,
                        to: if award {
                            fulfiller
                        } else {
                            c.commissioner
                        },
                        amount: c.bounty_amount,
                    },
                    keep(KeyModel::Commission(id)),
                    event(
                        "comm"@,
                        "resolved"@,
                        seq![ValueModel::Text(id), ValueModel::Flag(award)],
                    ),
                ],
                (),
            ),
        }
    }

    /// Keeps a stored commission for another full window.
    pub open spec fn renew(self, id: Seq<char>) -> CallOutcome {
        if self.commissions.contains_key(id) {
            accept(self, seq![keep(KeyModel::Commission(id))], ())
        } else {
            refuse(self, seq![], Error::CommissionNotFound)
        }
    }
}

impl DataCommission {
    /// A contract that nobody initialized yet.
    pub fn new() -> (r: Self)
        ensures
            r@ == DataCommissionModel::fresh(),
    {
        DataCommission {
            governance: Governance::new(),
            arbiter: None,
            count: 0,
            language_counts: Table::new(),
            commissions: Table::new(),
        }
    }

    /// Makes `admin` the first admin.
    pub fn initialize(&mut self, fx: &mut Effects, admin: Address) -> (r: Result<(), Error>)
        ensures
            r == old(self)@.initialize(admin@).answer,
            final(self)@ == old(self)@.initialize(admin@).state,
            final(fx)@ == old(fx)@ + old(self)@.initialize(admin@).effects,
    {
        let answer = lift(self.governance.initialize(fx, admin));
        if answer.is_ok() {
            self.count = 0;
        }
        answer
    }

    /// The first step of an admin handover: the admin proposes a successor.
    /// Control moves only once the successor accepts, so a stolen key alone
    /// cannot hand the contract to someone who did not sign.
    pub fn propose_admin(&mut self, fx: &mut Effects, new_admin: Address) -> (r: Result<(), Error>)
        ensures
            ({
                let outcome = old(self)@.governed(old(self)@.governance.propose(new_admin@));
                &&& r == outcome.answer
                &&& final(self)@ == outcome.state
                &&& final(fx)@ == old(fx)@ + outcome.effects
            }),
    {
        lift(self.governance.propose(fx, new_admin))
    }

    /// The second step: the successor accepts.
    pub fn accept_admin(&mut self, fx: &mut Effects) -> (r: Result<(), Error>)
        ensures
            ({
                let outcome = old(self)@.governed(old(self)@.governance.accept_proposal());
                &&& r == outcome.answer
                &&& final(self)@ == outcome.state
                &&& final(fx)@ == old(fx)@ + outcome.effects
            }),
    {
        lift(self.governance.accept_proposal(fx))
    }

    /// Freezes every write. Reads stay available.
    pub fn pause(&mut self, ctx: &Context, fx: &mut Effects) -> (r: Result<(), Error>)
        ensures
            ({
                let outcome = old(self)@.governed(old(self)@.governance.pause(ctx@));
                &&& r == outcome.answer
                &&& final(self)@ == outcome.state
                &&& final(fx)@ == old(fx)@ + outcome.effects
            }),
    {
        lift(self.governance.pause(ctx, fx))
    }

    /// Ends the freeze.
    pub fn unpause(&mut self, ctx: &Context, fx: &mut Effects) -> (r: Result<(), Error>)
        ensures
            ({
                let outcome = old(self)@.governed(old(self)@.governance.unpause(ctx@));
                &&& r == outcome.answer
                &&& final(self)@ == outcome.state
                &&& final(fx)@ == old(fx)@ + outcome.effects
            }),
    {
        lift(self.governance.unpause(ctx, fx))
    }

    /// Whether writes are frozen.
    pub fn is_paused(&self) -> (b: bool)
        ensures
            b == self@.governance.paused,
    {
        self.governance.paused
    }

    /// Posts a commission, and moves its bounty into escrow.
    pub fn post_commission(
        &mut self,
        ctx: &Context,
        fx: &mut Effects,
        commissioner: Address,
        language_code: String,
        description_hash: Hash32,
        bounty_token: Address,
        bounty_amount: i128,
        min_sample_count: u32,
        min_duration_seconds: u32,
        deadline_ledger: u32,
    ) -> (r: Result<String, Error>)
        requires
            ({
                let terms = Terms {
                    commissioner: commissioner@,
                    language_code: language_code@,
                    description_hash: description_hash@,
                    bounty_token: bounty_token@,
                    bounty_amount,
                    min_sample_count,
                    min_duration_seconds,
                    deadline_ledger,
                };
                old(self)@.post_fault(ctx@, terms) is None ==> old(self)@.has_room(language_code@)
            }),
        ensures
            ({
                let terms = Terms {
                    commissioner: commissioner@,
                    language_code: language_code@,
                    description_hash: description_hash@,
                    bounty_token: bounty_token@,
                    bounty_amount,
                    min_sample_count,
                    min_duration_seconds,
                    deadline_ledger,
                };
                let outcome = old(self)@.post(ctx@, terms);
                &&& view_result(r) == outcome.answer
                &&& final(self)@ == outcome.state
                &&& final(fx)@ == old(fx)@ + outcome.effects
            }),
    {
        if self.is_paused() {
            return Err(Error::ContractPaused);
        }
        fx.authorize(&commissioner);
        if description_hash.is_zero() {
            return Err(Error::MetadataHashCannotBeZero);
        }
        if bounty_amount <= 0 {
            return Err(Error::BountyMustBePositive);
        }
        if deadline_ledger <= ctx.sequence {
            return Err(Error::DeadlineMustBeInTheFuture);
        }
        fx.transfer(&bounty_token, &commissioner, &ctx.contract, bounty_amount);

        let posted: u32 = self.commission_count_by_lang(&language_code);
        let id = numbered("com_", self.count + 1);
        let commission = Commission {
            id: id.clone(),
            commissioner,
            language_code: language_code.clone(),
            description_hash,
            bounty_token,
            bounty_amount,
            milestones: Vec::new(),
            min_sample_count,
            min_duration_seconds,
            deadline_ledger,
            state: CommissionState::Open,
            fulfiller: None,
            fulfilled_dataset_id: None,
        };
        self.commissions.set(id.clone(), commission);
        self.count = self.count + 1;
        self.language_counts.set(language_code.clone(), Counter { value: posted + 1 });

        fx.keep(StorageKey::Commission(id.clone()));
        fx.publish_three(
            "comm",
            "posted",
            Value::Text(id.clone()),
            Value::Text(language_code),
            Value::I128(bounty_amount),
        );
        Ok(id)
    }

    /// The admin has verified a delivery: pays the bounty to `fulfiller`, or,
    /// where there are milestones, makes it the one they are paid to.
    pub fn fulfil_commission(
        &mut self,
        ctx: &Context,
        fx: &mut Effects,
        commission_id: String,
        fulfiller: Address,
        dataset_id: String,
    ) -> (r: Result<(), Error>)
        ensures
            ({
                let outcome = old(self)@.fulfil(
                    ctx@,
                    commission_id@,
                    fulfiller@,
                    dataset_id@,
                );
                &&& r == outcome.answer
                &&& final(self)@ == outcome.state
                &&& final(fx)@ == old(fx)@ + outcome.effects
            }),
    {
        if self.is_paused() {
            return Err(Error::ContractPaused);
        }
        if self.governance.authorize_admin(fx).is_err() {
            return Err(Error::NotInitialized);
        }
        let mut comm = match self.commissions.get(&commission_id) {
            None => {
                return Err(Error::CommissionNotFound);
            },
            Some(found) => found.clone(),
        };
        if comm.state != CommissionState::Open {
            return Err(Error::CommissionNotOpen);
        }
        if ctx.sequence > comm.deadline_ledger {
            return Err(Error::CommissionDeadlinePassed);
        }
        let bounty_amount: i128 = comm.bounty_amount;
        comm.fulfiller = Some(fulfiller.clone());
        comm.fulfilled_dataset_id = Some(dataset_id.clone());
        if comm.milestones.is_empty() {
            fx.transfer(&comm.bounty_token, &ctx.contract, &fulfiller, comm.bounty_amount);
            comm.state = CommissionState::Fulfilled;
        }
        self.commissions.set(commission_id.clone(), comm);

        fx.keep(StorageKey::Commission(commission_id.clone()));
        fx.publish_four(
            "comm",
            "fulfilled",
            Value::Text(commission_id),
            Value::Account(fulfiller),
            Value::Text(dataset_id),
            Value::I128(bounty_amount),
        );
        Ok(())
    }

    /// Cancels an open commission, and returns what is left of its bounty.
    pub fn cancel_commission(
        &mut self,
        ctx: &Context,
        fx: &mut Effects,
        commission_id: String,
    ) -> (r: Result<(), Error>)
        requires
            old(self)@.cancel_fault(commission_id@) is None
                ==> old(self)@.commissions[commission_id@].sound(),
        ensures
            r == old(self)@.cancel(ctx@, commission_id@).answer,
            final(self)@ == old(self)@.cancel(ctx@, commission_id@).state,
            final(fx)@ == old(fx)@ + old(self)@.cancel(ctx@, commission_id@).effects,
    {
        if self.is_paused() {
            return Err(Error::ContractPaused);
        }
        let mut comm = match self.commissions.get(&commission_id) {
            None => {
                return Err(Error::CommissionNotFound);
            },
            Some(found) => found.clone(),
        };
        if comm.state != CommissionState::Open {
            return Err(Error::CommissionNotOpen);
        }
        if ctx.sequence <= comm.deadline_ledger {
            fx.authorize(&comm.commissioner);
        }
        let released: i128 = Self::released(&comm);
        let remaining: i128 = comm.bounty_amount - released;
        if remaining > 0 {
            fx.transfer(&comm.bounty_token, &ctx.contract, &comm.commissioner, remaining);
        }
        comm.state = CommissionState::Cancelled;
        self.commissions.set(commission_id.clone(), comm);

        fx.keep(StorageKey::Commission(commission_id.clone()));
        fx.publish_one("comm", "cancelled", Value::Text(commission_id));
        Ok(())
    }

    /// What the released milestones of `comm` paid.
    fn released(comm: &Commission) -> (sum: i128)
        requires
            comm@.sound(),
        ensures
            sum == released_total(comm.milestones@),
            0 <= sum <= comm.bounty_amount,
    {
        let ghost ms = comm.milestones@;
        let mut sum: i128 = 0;
        let mut i: usize = 0;
        assert(ms.take(0) =~= Seq::<Milestone>::empty());
        while i < comm.milestones.len()
            invariant
                ms == comm.milestones@,
                comm@.sound(),
                i <= ms.len(),
                sum == released_total(ms.take(i as int)),
                0 <= sum <= total(ms.take(i as int)) <= comm.bounty_amount,
            decreases ms.len() - i,
        {
            proof {
                assert(ms.take(i + 1).drop_last() =~= ms.take(i as int));
                assert(ms.take(ms.len() as int) =~= ms);
                laws::lemma_total_grows(ms, i + 1, ms.len() as int);
            }
            if comm.milestones[i].released {
                sum = sum + comm.milestones[i].amount;
            }
            i = i + 1;
        }
        assert(ms.take(ms.len() as int) =~= ms);
        sum
    }

    /// Splits a bounty into milestones. Once a fulfiller is assigned, they are
    /// fixed.
    pub fn set_milestones(
        &mut self,
        fx: &mut Effects,
        commission_id: String,
        milestones: Vec<Milestone>,
    ) -> (r: Result<(), Error>)
        requires
            old(self)@.milestones_closed(commission_id@) is None ==> running_total_fits(
                milestones@,
            ),
        ensures
            r == old(self)@.set_milestones(commission_id@, milestones@).answer,
            final(self)@ == old(self)@.set_milestones(commission_id@, milestones@).state,
            final(fx)@ == old(fx)@ + old(self)@.set_milestones(
                commission_id@,
                milestones@,
            ).effects,
    {
        if self.is_paused() {
            return Err(Error::ContractPaused);
        }
        let mut comm = match self.commissions.get(&commission_id) {
            None => {
                return Err(Error::CommissionNotFound);
            },
            Some(found) => found.clone(),
        };
        fx.authorize(&comm.commissioner);
        if comm.state != CommissionState::Open || comm.fulfiller.is_some() {
            return Err(Error::CommissionAlreadyFulfilled);
        }
        match Self::check_milestones(&milestones, comm.bounty_amount) {
            Err(e) => {
                return Err(e);
            },
            Ok(_) => {},
        }
        comm.milestones = milestones;
        self.commissions.set(commission_id.clone(), comm);

        fx.keep(StorageKey::Commission(commission_id.clone()));
        fx.publish_one("comm", "mstones", Value::Text(commission_id));
        Ok(())
    }

    /// Whether `milestones` are tranches of `bounty`.
    fn check_milestones(milestones: &Vec<Milestone>, bounty: i128) -> (r: Result<(), Error>)
        requires
            running_total_fits(milestones@),
        ensures
            r == (if milestones@.len() == 0 {
                Err::<(), Error>(Error::MustProvideAtLeastOneMilestone)
            } else {
                match milestone_fault(milestones@, bounty as int, 0) {
                    Some(e) => Err(e),
                    None => Ok(()),
                }
            }),
    {
        if milestones.is_empty() {
            return Err(Error::MustProvideAtLeastOneMilestone);
        }
        let ghost ms = milestones@;
        let mut sum: i128 = 0;
        let mut i: usize = 0;
        assert(ms.take(0) =~= Seq::<Milestone>::empty());
        while i < milestones.len()
            invariant
                ms == milestones@,
                running_total_fits(ms),
                i <= ms.len(),
                0 <= sum,
                sum == total(ms.take(i as int)),
                forall|j: int| 0 <= j < i ==> fit_for_new(#[trigger] ms[j]),
                milestone_fault(ms, bounty as int, 0) == milestone_fault(
                    ms,
                    bounty as int,
                    i as int,
                ),
            decreases ms.len() - i,
        {
            if milestones[i].amount <= 0 {
                return Err(Error::MilestoneAmountMustBePositive);
            }
            if milestones[i].released {
                return Err(Error::NewMilestonesCannotStartReleased);
            }
            proof {
                assert(ms.take(i + 1).drop_last() =~= ms.take(i as int));
                assert(fit_for_new(ms[i as int]));
                assert(total(ms.take(i + 1)) <= i128::MAX);
            }
            sum = sum + milestones[i].amount;
            i = i + 1;
        }
        assert(ms.take(ms.len() as int) =~= ms);
        if sum != bounty {
            return Err(Error::MilestoneAmountsMustSumToBounty);
        }
        Ok(())
    }

    /// The admin has verified the deliverable of one milestone: pays it.
    pub fn release_milestone(
        &mut self,
        ctx: &Context,
        fx: &mut Effects,
        commission_id: String,
        milestone_index: u32,
    ) -> (r: Result<(), Error>)
        ensures
            ({
                let outcome = old(self)@.release(ctx@, commission_id@, milestone_index);
                &&& r == outcome.answer
                &&& final(self)@ == outcome.state
                &&& final(fx)@ == old(fx)@ + outcome.effects
            }),
    {
        if self.is_paused() {
            return Err(Error::ContractPaused);
        }
        if self.governance.authorize_admin(fx).is_err() {
            return Err(Error::NotInitialized);
        }
        let mut comm = match self.commissions.get(&commission_id) {
            None => {
                return Err(Error::CommissionNotFound);
            },
            Some(found) => found.clone(),
        };
        if comm.state != CommissionState::Open {
            return Err(Error::CommissionNotOpen);
        }
        let fulfiller = match &comm.fulfiller {
            None => {
                return Err(Error::CommissionHasNoFulfillerYet);
            },
            Some(who) => who.clone(),
        };
        let index: usize = milestone_index as usize;
        if index >= comm.milestones.len() {
            return Err(Error::MilestoneIndexOutOfRange);
        }
        let mut milestone = comm.milestones[index];
        if milestone.released {
            return Err(Error::MilestoneAlreadyReleased);
        }
        fx.transfer(&comm.bounty_token, &ctx.contract, &fulfiller, milestone.amount);

        milestone.released = true;
        comm.milestones[index] = milestone;
        if Self::are_all_released(&comm.milestones) {
            comm.state = CommissionState::Fulfilled;
        }
        self.commissions.set(commission_id.clone(), comm);

        fx.keep(StorageKey::Commission(commission_id.clone()));
        fx.publish_three(
            "comm",
            "mrelease",
            Value::Text(commission_id),
            Value::U32(milestone_index),
            Value::I128(milestone.amount),
        );
        Ok(())
    }

    fn are_all_released(milestones: &Vec<Milestone>) -> (b: bool)
        ensures
            b == all_released(milestones@),
    {
        let mut i: usize = 0;
        while i < milestones.len()
            invariant
                i <= milestones@.len(),
                forall|j: int| 0 <= j < i ==> (#[trigger] milestones@[j]).released,
            decreases milestones@.len() - i,
        {
            if !milestones[i].released {
                assert(!milestones@[i as int].released);
                return false;
            }
            i = i + 1;
        }
        true
    }

    /// The commission under an id.
    pub fn get_commission(&self, commission_id: &String) -> (r: Result<Commission, Error>)
        ensures
            view_result(r) == (if self@.commissions.contains_key(commission_id@) {
                Ok::<CommissionModel, Error>(self@.commissions[commission_id@])
            } else {
                Err(Error::CommissionNotFound)
            }),
    {
        match self.commissions.get(commission_id) {
            Some(found) => Ok(found.clone()),
            None => Err(Error::CommissionNotFound),
        }
    }

    /// Keeps a commission for another full window. Anyone may ask: a longer
    /// life cannot be abused the way a change could.
    pub fn renew_commission_ttl(&self, fx: &mut Effects, commission_id: String) -> (r: Result<
        (),
        Error,
    >)
        ensures
            r == self@.renew(commission_id@).answer,
            final(fx)@ == old(fx)@ + self@.renew(commission_id@).effects,
    {
        if !self.commissions.has(&commission_id) {
            return Err(Error::CommissionNotFound);
        }
        fx.keep(StorageKey::Commission(commission_id));
        Ok(())
    }

    /// How many commissions were posted.
    pub fn commission_count(&self) -> (n: u32)
        ensures
            n == self@.count,
    {
        self.count
    }

    /// How many commissions were posted for a language, by its ISO 639-3 code;
    /// none for a language without any.
    pub fn commission_count_by_lang(&self, lang: &String) -> (n: u32)
        ensures
            n == self@.language_count(lang@),
    {
        match self.language_counts.get(lang) {
            Some(counter) => counter.value,
            None => 0,
        }
    }

    /// The version of this contract.
    pub fn version() -> (n: u32)
        ensures
            n == 2,
    {
        2
    }

    /// The admin replaces the contract's code.
    pub fn upgrade(&self, ctx: &Context, fx: &mut Effects, new_wasm_hash: Hash32) -> (r: Result<
        (),
        Error,
    >)
        ensures
            r == lifted_answer(self@.governance.upgrade(ctx@, new_wasm_hash@).answer),
            final(fx)@ == old(fx)@ + self@.governance.upgrade(ctx@, new_wasm_hash@).effects,
    {
        lift(self.governance.upgrade(ctx, fx, new_wasm_hash))
    }

    /// The admin names who rules on disputes.
    pub fn set_arbiter(&mut self, fx: &mut Effects, arbiter: Address) -> (r: Result<(), Error>)
        ensures
            r == old(self)@.set_arbiter(arbiter@).answer,
            final(self)@ == old(self)@.set_arbiter(arbiter@).state,
            final(fx)@ == old(fx)@ + old(self)@.set_arbiter(arbiter@).effects,
    {
        if self.is_paused() {
            return Err(Error::ContractPaused);
        }
        if self.governance.authorize_admin(fx).is_err() {
            return Err(Error::NotInitialized);
        }
        self.arbiter = Some(arbiter.clone());
        fx.publish_one("comm", "arbiter", Value::Account(arbiter));
        Ok(())
    }

    /// The commissioner disputes an open commission of which nothing was paid
    /// out yet. It is frozen until the arbiter rules on it.
    pub fn raise_dispute(
        &mut self,
        fx: &mut Effects,
        commission_id: String,
        raised_by: Address,
    ) -> (r: Result<(), Error>)
        ensures
            r == old(self)@.raise_dispute(commission_id@, raised_by@).answer,
            final(self)@ == old(self)@.raise_dispute(commission_id@, raised_by@).state,
            final(fx)@ == old(fx)@ + old(self)@.raise_dispute(
                commission_id@,
                raised_by@,
            ).effects,
    {
        if self.is_paused() {
            return Err(Error::ContractPaused);
        }
        fx.authorize(&raised_by);
        let mut comm = match self.commissions.get(&commission_id) {
            None => {
                return Err(Error::CommissionNotFound);
            },
            Some(found) => found.clone(),
        };
        if !raised_by.same(&comm.commissioner) {
            return Err(Error::OnlyCommissionerCanRaiseDispute);
        }
        if comm.state != CommissionState::Open || Self::is_any_released(&comm) {
            return Err(Error::CommissionNotOpen);
        }
        comm.state = CommissionState::Disputed;
        self.commissions.set(commission_id.clone(), comm);

        fx.keep(StorageKey::Commission(commission_id.clone()));
        fx.publish_one("comm", "disputed", Value::Text(commission_id));
        Ok(())
    }

    /// Whether a milestone of the commission has been released.
    fn is_any_released(comm: &Commission) -> (b: bool)
        ensures
            b == !none_released(comm.milestones@),
    {
        let mut i: usize = 0;
        while i < comm.milestones.len()
            invariant
                i <= comm.milestones@.len(),
                forall|j: int| 0 <= j < i ==> !(#[trigger] comm.milestones@[j]).released,
            decreases comm.milestones@.len() - i,
        {
            if comm.milestones[i].released {
                return true;
            }
            i = i + 1;
        }
        false
    }

    /// The arbiter awards the whole bounty to `fulfiller`, or returns it.
    pub fn resolve_dispute(
        &mut self,
        ctx: &Context,
        fx: &mut Effects,
        commission_id: String,
        award_to_fulfiller: bool,
        fulfiller: Address,
        dataset_id: String,
    ) -> (r: Result<(), Error>)
        ensures
            ({
                let outcome = old(self)@.resolve(
                    ctx@,
                    commission_id@,
                    award_to_fulfiller,
                    fulfiller@,
                    dataset_id@,
                );
                &&& r == outcome.answer
                &&& final(self)@ == outcome.state
                &&& final(fx)@ == old(fx)@ + outcome.effects
            }),
    {
        if self.is_paused() {
            return Err(Error::ContractPaused);
        }
        match &self.arbiter {
            None => {
                return Err(Error::NoArbiterSet);
            },
            Some(arbiter) => {
                fx.authorize(arbiter);
            },
        }
        let mut comm = match self.commissions.get(&commission_id) {
            None => {
                return Err(Error::CommissionNotFound);
            },
            Some(found) => found.clone(),
        };
        if comm.state != CommissionState::Disputed {
            return Err(Error::CommissionNotDisputed);
        }
        if award_to_fulfiller {
            fx.transfer(&comm.bounty_token, &ctx.contract, &fulfiller, comm.bounty_amount);
            comm.state = CommissionState::Fulfilled;
            comm.fulfiller = Some(fulfiller);
            comm.fulfilled_dataset_id = Some(dataset_id);
        } else {
            fx.transfer(&comm.bounty_token, &ctx.contract, &comm.commissioner, comm.bounty_amount);
            comm.state = CommissionState::Cancelled;
        }
        self.commissions.set(commission_id.clone(), comm);

        fx.keep(StorageKey::Commission(commission_id.clone()));
        fx.publish_two(
            "comm",
            "resolved",
            Value::Text(commission_id),
            Value::Flag(award_to_fulfiller),
        );
        Ok(())
    }
}

} // verus!
