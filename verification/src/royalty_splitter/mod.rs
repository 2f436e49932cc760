//! Royalties: an amount that a dataset earned is divided between the treasury
//! and the dataset's contributors, and a receipt records it.
//!
//! Split configurations are stored under their dataset's id and receipts under
//! their number, in one space of plain texts.

use crate::governance::{Governance, GovernanceError, GovernanceModel, GovernanceOutcome};
use crate::host::{accept, copy_address, event, keep, refuse, view_opt, view_result, Address, Context,
    ContextModel, EffectModel, Effects, Hash32, KeyModel, Outcome, StorageKey, Value, ValueModel};
use crate::quality_oracle::QualityModel;
use crate::royalty_splitter::payout::{amounts, divisible, fee, fee_of, law_fee, payouts, payouts_of,
    share_views, sum_bps, total_bps};
use crate::table::Table;
use crate::text::{numbered, numbered_text};
use vstd::prelude::*;

pub use crate::quality_oracle::{DatasetQuality, QualityTier};

pub mod calls;
pub mod laws;
pub mod payout;

verus! {

/// Why a call is refused.
#[derive(Clone, Copy, Debug, PartialEq, Eq, PartialOrd, Ord, Structural)]
pub enum Error {
    AlreadyInitialized,
    NotInitialized,
    NoAdminProposalPending,
    SharesMustSumTo10000,
    SplitConfigNotFound,
    AmountMustBePositive,
    InsufficientContractBalance,
    PayoutNotFound,
    /// A write was asked of a frozen contract.
    ContractPaused,
    /// `pause` was asked of a contract that is frozen.
    AlreadyPaused,
    /// `unpause` was asked of a contract that is not frozen.
    NotPaused,
}

impl Error {
    /// The number under which callers see the error.
    pub open spec fn spec_code(self) -> u32 {
        match self {
            Error::AlreadyInitialized => 1,
            Error::NotInitialized => 2,
            Error::NoAdminProposalPending => 3,
            Error::SharesMustSumTo10000 => 4,
            Error::SplitConfigNotFound => 5,
            Error::AmountMustBePositive => 6,
            Error::InsufficientContractBalance => 7,
            Error::PayoutNotFound => 8,
            Error::ContractPaused => 9,
            Error::AlreadyPaused => 10,
            Error::NotPaused => 11,
        }
    }

    /// What the error says.
    pub open spec fn spec_message(self) -> Seq<char> {
        match self {
            Error::AlreadyInitialized => "already initialized"@,
            Error::NotInitialized => "not initialized"@,
            Error::NoAdminProposalPending => "no admin proposal pending"@,
            Error::SharesMustSumTo10000 => "shares must sum to 10000 bps"@,
            Error::SplitConfigNotFound => "split config not found"@,
            Error::AmountMustBePositive => "amount must be positive"@,
            Error::InsufficientContractBalance => "insufficient contract balance"@,
            Error::PayoutNotFound => "payout not found"@,
            Error::ContractPaused => "contract paused"@,
            Error::AlreadyPaused => "already paused"@,
            Error::NotPaused => "not paused"@,
        }
    }

    /// The error by which this contract reports one of its admin's side.
    pub open spec fn of_governance(error: GovernanceError) -> Error {
        match error {
            GovernanceError::AlreadyInitialized => Error::AlreadyInitialized,
            GovernanceError::NotInitialized => Error::NotInitialized,
            GovernanceError::NoAdminProposalPending => Error::NoAdminProposalPending,
            GovernanceError::AlreadyPaused => Error::AlreadyPaused,
            GovernanceError::NotPaused => Error::NotPaused,
        }
    }

    /// The number under which callers see the error.
    pub fn code(&self) -> (r: u32)
        ensures
            r == self.spec_code(),
    {
        match self {
            Error::AlreadyInitialized => 1,
            Error::NotInitialized => 2,
            Error::NoAdminProposalPending => 3,
            Error::SharesMustSumTo10000 => 4,
            Error::SplitConfigNotFound => 5,
            Error::AmountMustBePositive => 6,
            Error::InsufficientContractBalance => 7,
            Error::PayoutNotFound => 8,
            Error::ContractPaused => 9,
            Error::AlreadyPaused => 10,
            Error::NotPaused => 11,
        }
    }

    /// What the error says.
    pub fn message(&self) -> (r: &'static str)
        ensures
            r@ == self.spec_message(),
    {
        match self {
            Error::AlreadyInitialized => "already initialized",
            Error::NotInitialized => "not initialized",
            Error::NoAdminProposalPending => "no admin proposal pending",
            Error::SharesMustSumTo10000 => "shares must sum to 10000 bps",
            Error::SplitConfigNotFound => "split config not found",
            Error::AmountMustBePositive => "amount must be positive",
            Error::InsufficientContractBalance => "insufficient contract balance",
            Error::PayoutNotFound => "payout not found",
            Error::ContractPaused => "contract paused",
            Error::AlreadyPaused => "already paused",
            Error::NotPaused => "not paused",
        }
    }
}

fn lift(answer: Result<(), GovernanceError>) -> (r: Result<(), Error>)
    ensures
        r == lifted_answer(answer),
{
    match answer {
        Ok(_) => Ok(()),
        Err(GovernanceError::AlreadyInitialized) => Err(Error::AlreadyInitialized),
        Err(GovernanceError::NotInitialized) => Err(Error::NotInitialized),
        Err(GovernanceError::NoAdminProposalPending) => Err(Error::NoAdminProposalPending),
        Err(GovernanceError::AlreadyPaused) => Err(Error::AlreadyPaused),
        Err(GovernanceError::NotPaused) => Err(Error::NotPaused),
    }
}

/// An answer of the admin's side, as this contract reports it.
pub open spec fn lifted_answer(answer: Result<(), GovernanceError>) -> Result<(), Error> {
    match answer {
        Ok(_) => Ok(()),
        Err(e) => Err(Error::of_governance(e)),
    }
}

/// Who is paid for a dataset, and in which token.
#[derive(Debug, PartialEq, Eq)]
pub struct SplitConfig {
    pub dataset_id: String,
    pub token: Address,
    /// Who gets the fee.
    pub treasury: Address,
    /// Each contributor's share, in basis points.
    pub contributors: Vec<(Address, u32)>,
}

#[verifier::ext_equal]
pub struct SplitModel {
    pub dataset_id: Seq<char>,
    pub token: Seq<char>,
    pub treasury: Seq<char>,
    pub contributors: Seq<(Seq<char>, u32)>,
}

impl View for SplitConfig {
    type V = SplitModel;

    open spec fn view(&self) -> SplitModel {
        SplitModel {
            dataset_id: self.dataset_id@,
            token: self.token@,
            treasury: self.treasury@,
            contributors: share_views(self.contributors@),
        }
    }
}

impl Clone for SplitConfig {
    fn clone(&self) -> (r: Self)
        ensures
            r@ == self@,
    {
        let mut contributors: Vec<(Address, u32)> = Vec::new();
        let mut i: usize = 0;
        while i < self.contributors.len()
            invariant
                i <= self.contributors@.len(),
                share_views(contributors@) == share_views(self.contributors@).take(i as int),
            decreases self.contributors@.len() - i,
        {
            let ghost before = contributors@;
            contributors.push((self.contributors[i].0.clone(), self.contributors[i].1));
            assert(share_views(contributors@) =~= share_views(before).push(
                share_views(self.contributors@)[i as int],
            ));
            assert(share_views(self.contributors@).take(i + 1) =~= share_views(
                self.contributors@,
            ).take(i as int).push(share_views(self.contributors@)[i as int]));
            i = i + 1;
        }
        assert(share_views(self.contributors@).take(i as int) =~= share_views(self.contributors@));
        SplitConfig {
            dataset_id: self.dataset_id.clone(),
            token: self.token.clone(),
            treasury: self.treasury.clone(),
            contributors,
        }
    }
}

/// The receipt of a payout.
#[derive(Debug, PartialEq, Eq)]
pub struct PayoutRecord {
    pub dataset_id: String,
    pub total_amount: i128,
    pub ledger: u32,
    /// The number of the payout, from one on.
    pub tx_count: u32,
    /// The dataset's tier at the time, by name.
    pub quality_tier: String,
}

#[verifier::ext_equal]
pub struct PayoutModel {
    pub dataset_id: Seq<char>,
    pub total_amount: i128,
    pub ledger: u32,
    pub tx_count: u32,
    pub quality_tier: Seq<char>,
}

impl View for PayoutRecord {
    type V = PayoutModel;

    open spec fn view(&self) -> PayoutModel {
        PayoutModel {
            dataset_id: self.dataset_id@,
            total_amount: self.total_amount,
            ledger: self.ledger,
            tx_count: self.tx_count,
            quality_tier: self.quality_tier@,
        }
    }
}

impl Clone for PayoutRecord {
    fn clone(&self) -> (r: Self)
        ensures
            r@ == self@,
    {
        PayoutRecord {
            dataset_id: self.dataset_id.clone(),
            total_amount: self.total_amount,
            ledger: self.ledger,
            tx_count: self.tx_count,
            quality_tier: self.quality_tier.clone(),
        }
    }
}

/// What is stored under a text.
#[derive(Debug, PartialEq, Eq)]
pub enum Record {
    Split(SplitConfig),
    Payout(PayoutRecord),
}

#[verifier::ext_equal]
pub enum RecordModel {
    Split(SplitModel),
    Payout(PayoutModel),
}

impl View for Record {
    type V = RecordModel;

    open spec fn view(&self) -> RecordModel {
        match self {
            Record::Split(config) => RecordModel::Split(config@),
            Record::Payout(record) => RecordModel::Payout(record@),
        }
    }
}

impl Clone for Record {
    fn clone(&self) -> (r: Self)
        ensures
            r@ == self@,
    {
        match self {
            Record::Split(config) => Record::Split(config.clone()),
            Record::Payout(record) => Record::Payout(record.clone()),
        }
    }
}

/// The name of a tier.
pub fn tier_label(tier: &QualityTier) -> (r: String)
    ensures
        r@ == tier.spec_name(),
{
    tier.name().to_string()
}

/// The splitter contract.
#[derive(Clone, Debug)]
pub struct RoyaltySplitter {
    pub governance: Governance,
    /// The contract that rates the datasets.
    pub oracle: Option<Address>,
    /// How many payouts there were.
    pub count: u32,
    pub records: Table<String, Record>,
}

#[verifier::ext_equal]
pub struct RoyaltySplitterModel {
    pub governance: GovernanceModel,
    pub oracle: Option<Seq<char>>,
    pub count: u32,
    pub records: Map<Seq<char>, RecordModel>,
}

impl View for RoyaltySplitter {
    type V = RoyaltySplitterModel;

    open spec fn view(&self) -> RoyaltySplitterModel {
        RoyaltySplitterModel {
            governance: self.governance@,
            oracle: view_opt(self.oracle),
            count: self.count,
            records: self.records@,
        }
    }
}

pub type CallOutcome = Outcome<RoyaltySplitterModel, (), Error>;

/// The name of the receipt numbered `n`.
pub open spec fn payout_name(n: nat) -> Seq<char> {
    numbered_text("pay_"@, n)
}

/// The transfers of the first `upto` payouts that are worth something.
pub open spec fn transfers(
    config: SplitModel,
    contract: Seq<char>,
    paid: Seq<int>,
    upto: int,
) -> Seq<EffectModel>
    decreases upto,
{
    if upto <= 0 {
        seq![]
    } else {
        let before = transfers(config, contract, paid, upto - 1);
        if paid[upto - 1] > 0 {
            before.push(
                EffectModel::Transfer {
                    token: config.token,
                    from: contract,
                    to: config.contributors[upto - 1].0,
                    amount: paid[upto - 1] as i128,
                },
            )
        } else {
            before
        }
    }
}

/// Everything that a payout of `amount` moves: the fee first, then the shares.
pub open spec fn all_transfers(
    config: SplitModel,
    contract: Seq<char>,
    amount: int,
) -> Seq<EffectModel> {
    let treasury_fee = fee(amount);
    seq![
        EffectModel::Transfer {
            token: config.token,
            from: contract,
            to: config.treasury,
            amount: treasury_fee as i128,
        },
    ] + transfers(
        config,
        contract,
        payouts(config.contributors, amount - treasury_fee),
        config.contributors.len() as int,
    )
}

impl RoyaltySplitterModel {
    /// Before anyone initialized the contract.
    pub open spec fn fresh() -> Self {
        RoyaltySplitterModel {
            governance: GovernanceModel::fresh(),
            oracle: None,
            count: 0,
            records: Map::empty(),
        }
    }

    /// What the admin's side answers, as an outcome of the contract.
    pub open spec fn governed(self, outcome: GovernanceOutcome) -> CallOutcome {
        Outcome {
            answer: lifted_answer(outcome.answer),
            state: RoyaltySplitterModel { governance: outcome.state, ..self },
            effects: outcome.effects,
        }
    }

    pub open spec fn initialize(self, admin: Seq<char>) -> CallOutcome {
        let outcome = self.governed(self.governance.initialize(admin));
        if outcome.answer is Ok {
            Outcome {
                state: RoyaltySplitterModel { count: 0, ..outcome.state },
                effects: outcome.effects + seq![keep(KeyModel::Instance)],
                ..outcome
            }
        } else {
            outcome
        }
    }

    pub open spec fn register(self, config: SplitModel) -> CallOutcome {
        let asked = self.governance.admin_asked();
        if self.governance.paused {
            refuse(self, seq![], Error::ContractPaused)
        } else if self.governance.admin is None {
            refuse(self, asked, Error::NotInitialized)
        } else if total_bps(config.contributors) != 10_000 {
            refuse(self, asked, Error::SharesMustSumTo10000)
        } else {
            accept(
                RoyaltySplitterModel {
                    records: self.records.insert(config.dataset_id, RecordModel::Split(config)),
                    ..self
                },
                asked + seq![
                    keep(KeyModel::Instance),
                    keep(KeyModel::Record(config.dataset_id)),
                ],
                (),
            )
        }
    }

    /// The configuration under `id`.
    pub open spec fn split(self, id: Seq<char>) -> SplitModel {
        self.records[id]->Split_0
    }

    /// What speaks against a payout before the amounts are computed.
    pub open spec fn unfit_for_payout(self, id: Seq<char>, amount: i128) -> Option<Error> {
        if self.governance.paused {
            Some(Error::ContractPaused)
        } else if self.governance.admin is None {
            Some(Error::NotInitialized)
        } else if !self.records.contains_key(id) {
            Some(Error::SplitConfigNotFound)
        } else if amount <= 0 {
            Some(Error::AmountMustBePositive)
        } else {
            None
        }
    }

    pub open spec fn distribute_fault(
        self,
        id: Seq<char>,
        amount: i128,
        balance: i128,
    ) -> Option<Error> {
        if self.unfit_for_payout(id, amount) is Some {
            self.unfit_for_payout(id, amount)
        } else if balance < amount {
            Some(Error::InsufficientContractBalance)
        } else {
            None
        }
    }

    /// Whether what is stored under `id` is a configuration, wherever it is
    /// read as one.
    pub open spec fn reads_a_split(self, id: Seq<char>) -> bool {
        !self.governance.paused && self.governance.admin is Some && self.records.contains_key(id)
            ==> self.records[id] is Split
    }

    /// The tier on the receipt, given the oracle's reply: `None` where it gave
    /// none.
    pub open spec fn label(self, reply: Option<QualityModel>) -> Seq<char> {
        match reply {
            Some(quality) if self.oracle is Some => quality.tier.spec_name(),
            _ => "Unrated"@,
        }
    }

    pub open spec fn receipt(
        self,
        ctx: ContextModel,
        id: Seq<char>,
        amount: i128,
        reply: Option<QualityModel>,
    ) -> PayoutModel {
        PayoutModel {
            dataset_id: id,
            total_amount: amount,
            ledger: ctx.sequence,
            tx_count: (self.count + 1) as u32,
            quality_tier: self.label(reply),
        }
    }

    pub open spec fn distribute(
        self,
        ctx: ContextModel,
        id: Seq<char>,
        amount: i128,
        balance: i128,
        reply: Option<QualityModel>,
    ) -> CallOutcome {
        let asked = if self.governance.paused {
            seq![]
        } else {
            self.governance.admin_asked()
        };
        let name = payout_name((self.count + 1) as nat);
        let receipt = self.receipt(ctx, id, amount, reply);
        match self.distribute_fault(id, amount, balance) {
            Some(e) => refuse(self, asked, e),
            None => accept(
                RoyaltySplitterModel {
                    count: (self.count + 1) as u32,
                    records: self.records.insert(name, RecordModel::Payout(receipt)),
                    ..self
                },
                asked + seq![keep(KeyModel::Instance)] + all_transfers(
                    self.split(id),
                    ctx.contract,
                    amount as int,
                ) + seq![
                    keep(KeyModel::Record(name)),
                    event(
                        "royalty"@,
                        "paid"@,
                        seq![
                            ValueModel::Text(id),
                            ValueModel::I128(amount),
                            ValueModel::U32(ctx.sequence),
                            ValueModel::Text(receipt.quality_tier),
                        ],
                    ),
                ],
                (),
            ),
        }
    }

    /// The receipt numbered `n`.
    pub open spec fn payout(self, n: u32) -> Result<PayoutModel, Error> {
        let name = payout_name(n as nat);
        if self.records.contains_key(name) {
            Ok(self.records[name]->Payout_0)
        } else {
            Err(Error::PayoutNotFound)
        }
    }

    pub open spec fn set_oracle(self, oracle: Seq<char>) -> CallOutcome {
        let asked = self.governance.admin_asked();
        if self.governance.paused {
            refuse(self, seq![], Error::ContractPaused)
        } else if self.governance.admin is None {
            refuse(self, asked, Error::NotInitialized)
        } else {
            accept(RoyaltySplitterModel { oracle: Some(oracle), ..self }, asked, ())
        }
    }

    pub open spec fn renew_split(self, id: Seq<char>) -> CallOutcome {
        if !self.records.contains_key(id) {
            refuse(self, seq![], Error::SplitConfigNotFound)
        } else {
            accept(self, seq![keep(KeyModel::Instance), keep(KeyModel::Record(id))], ())
        }
    }

    pub open spec fn renew_payout(self, n: u32) -> CallOutcome {
        let name = payout_name(n as nat);
        if !self.records.contains_key(name) {
            refuse(self, seq![], Error::PayoutNotFound)
        } else {
            accept(self, seq![keep(KeyModel::Instance), keep(KeyModel::Record(name))], ())
        }
    }
}

impl RoyaltySplitter {
    /// A contract that nobody initialized yet.
    pub fn new() -> (r: Self)
        ensures
            r@ == RoyaltySplitterModel::fresh(),
    {
        RoyaltySplitter {
            governance: Governance::new(),
            oracle: None,
            count: 0,
            records: Table::new(),
        }
    }

    /// Makes `admin` the first admin.
    pub fn initialize(&mut self, fx: &mut Effects, admin: Address) -> (r: Result<(), Error>)
        ensures
            r == old(self)@.initialize(admin@).answer,
            final(self)@ == old(self)@.initialize(admin@).state,
            final(fx)@ == old(fx)@ + old(self)@.initialize(admin@).effects,
    {
        let answer = lift(self.governance.initialize(fx, admin));
        if answer.is_ok() {
            self.count = 0;
            Self::bump_instance(fx);
        }
        answer
    }

    /// The first step of an admin handover: the admin proposes a successor.
    /// Control moves only once the successor accepts, so a stolen key alone
    /// cannot hand the contract to someone who did not sign.
    pub fn propose_admin(&mut self, fx: &mut Effects, new_admin: Address) -> (r: Result<(), Error>)
        ensures
            ({
                let outcome = old(self)@.governed(old(self)@.governance.propose(new_admin@));
                &&& r == outcome.answer
                &&& final(self)@ == outcome.state
                &&& final(fx)@ == old(fx)@ + outcome.effects
            }),
    {
        lift(self.governance.propose(fx, new_admin))
    }

    /// The second step: the successor accepts.
    pub fn accept_admin(&mut self, fx: &mut Effects) -> (r: Result<(), Error>)
        ensures
            ({
                let outcome = old(self)@.governed(old(self)@.governance.accept_proposal());
                &&& r == outcome.answer
                &&& final(self)@ == outcome.state
                &&& final(fx)@ == old(fx)@ + outcome.effects
            }),
    {
        lift(self.governance.accept_proposal(fx))
    }

    /// Freezes every write. Reads stay available.
    pub fn pause(&mut self, ctx: &Context, fx: &mut Effects) -> (r: Result<(), Error>)
        ensures
            ({
                let outcome = old(self)@.governed(old(self)@.governance.pause(ctx@));
                &&& r == outcome.answer
                &&& final(self)@ == outcome.state
                &&& final(fx)@ == old(fx)@ + outcome.effects
            }),
    {
        lift(self.governance.pause(ctx, fx))
    }

    /// Ends the freeze.
    pub fn unpause(&mut self, ctx: &Context, fx: &mut Effects) -> (r: Result<(), Error>)
        ensures
            ({
                let outcome = old(self)@.governed(old(self)@.governance.unpause(ctx@));
                &&& r == outcome.answer
                &&& final(self)@ == outcome.state
                &&& final(fx)@ == old(fx)@ + outcome.effects
            }),
    {
        lift(self.governance.unpause(ctx, fx))
    }

    /// Whether writes are frozen.
    pub fn is_paused(&self) -> (b: bool)
        ensures
            b == self@.governance.paused,
    {
        self.governance.paused
    }

    /// The admin says who is paid for a dataset.
    pub fn register_split(&mut self, fx: &mut Effects, config: SplitConfig) -> (r: Result<
        (),
        Error,
    >)
        requires
            !old(self)@.governance.paused && old(self)@.governance.admin is Some ==> total_bps(
                config@.contributors,
            ) <= u32::MAX,
        ensures
            r == old(self)@.register(config@).answer,
            final(self)@ == old(self)@.register(config@).state,
            final(fx)@ == old(fx)@ + old(self)@.register(config@).effects,
    {
        if self.is_paused() {
            return Err(Error::ContractPaused);
        }
        if self.governance.authorize_admin(fx).is_err() {
            return Err(Error::NotInitialized);
        }
        if sum_bps(&config.contributors) != 10_000 {
            return Err(Error::SharesMustSumTo10000);
        }
        Self::bump_instance(fx);
        let dataset_id = config.dataset_id.clone();
        self.records.set(dataset_id.clone(), Record::Split(config));
        fx.keep(StorageKey::Record(dataset_id));
        Ok(())
    }

    /// The contract that is asked for the quality of a dataset when it is paid
    /// for, if any.
    pub fn oracle_to_ask(&self) -> (r: Option<Address>)
        ensures
            view_opt(r) == self@.oracle,
    {
        copy_address(&self.oracle)
    }

    /// The token whose balance decides whether a dataset can be paid for, if
    /// there is a configuration for it.
    pub fn token_to_check(&self, dataset_id: &String) -> (r: Option<Address>)
        ensures
            view_opt(r) == (if self@.records.contains_key(dataset_id@)
                && self@.records[dataset_id@] is Split {
                Some(self@.split(dataset_id@).token)
            } else {
                None
            }),
    {
        match self.records.get(dataset_id) {
            Some(Record::Split(config)) => Some(config.token.clone()),
            _ => None,
        }
    }

    /// Pays out an amount that a dataset earned. `balance` is what the contract
    /// has of the token, and `reply` the dataset's quality as the oracle gave
    /// it; `None` where there is no oracle, or where asking it failed for
    /// whatever reason, which never blocks a payout.
    pub fn distribute(
        &mut self,
        ctx: &Context,
        fx: &mut Effects,
        dataset_id: String,
        total_amount: i128,
        balance: i128,
        reply: Option<DatasetQuality>,
    ) -> (r: Result<(), Error>)
        requires
            old(self)@.reads_a_split(dataset_id@),
            old(self)@.unfit_for_payout(dataset_id@, total_amount) is None ==> divisible(
                old(self)@.split(dataset_id@).contributors,
                total_amount as int,
            ),
            old(self)@.distribute_fault(dataset_id@, total_amount, balance) is None
                ==> old(self)@.count < u32::MAX,
        ensures
            ({
                let outcome = old(self)@.distribute(
                    ctx@,
                    dataset_id@,
                    total_amount,
                    balance,
                    view_opt(reply),
                );
                &&& r == outcome.answer
                &&& final(self)@ == outcome.state
                &&& final(fx)@ == old(fx)@ + outcome.effects
            }),
    {
        if self.is_paused() {
            return Err(Error::ContractPaused);
        }
        if self.governance.authorize_admin(fx).is_err() {
            return Err(Error::NotInitialized);
        }
        let config = match self.records.get(&dataset_id) {
            Some(Record::Split(found)) => found.clone(),
            _ => {
                return Err(Error::SplitConfigNotFound);
            },
        };
        if total_amount <= 0 {
            return Err(Error::AmountMustBePositive);
        }
        proof {
            law_fee(total_amount as int);
        }
        let treasury_fee: i128 = fee_of(total_amount);
        let distributable: i128 = total_amount - treasury_fee;
        let paid = payouts_of(&config.contributors, distributable);

        // Nothing is moved unless all of it can be.
        if balance < total_amount {
            return Err(Error::InsufficientContractBalance);
        }
        Self::bump_instance(fx);
        fx.transfer(&config.token, &ctx.contract, &config.treasury, treasury_fee);
        Self::transfer_payouts(ctx, fx, &config, &paid);

        let quality_tier = match &reply {
            Some(quality) => if self.oracle.is_some() {
                tier_label(&quality.tier)
            } else {
                tier_label(&QualityTier::Unrated)
            },
            None => tier_label(&QualityTier::Unrated),
        };
        let record = PayoutRecord {
            dataset_id: dataset_id.clone(),
            total_amount,
            ledger: ctx.sequence,
            tx_count: self.count + 1,
            quality_tier: quality_tier.clone(),
        };
        let name = numbered("pay_", self.count + 1);
        self.records.set(name.clone(), Record::Payout(record));
        fx.keep(StorageKey::Record(name));
        self.count = self.count + 1;

        fx.publish_four(
            "royalty",
            "paid",
            Value::Text(dataset_id),
            Value::I128(total_amount),
            Value::U32(ctx.sequence),
            Value::Text(quality_tier),
        );
        Ok(())
    }

    /// Moves each contributor's payout.
    fn transfer_payouts(ctx: &Context, fx: &mut Effects, config: &SplitConfig, paid: &Vec<i128>)
        requires
            paid@.len() == config.contributors@.len(),
        ensures
            final(fx)@ == old(fx)@ + transfers(
                config@,
                ctx@.contract,
                amounts(paid@),
                paid@.len() as int,
            ),
    {
        let mut i: usize = 0;
        while i < paid.len()
            invariant
                i <= paid@.len(),
                paid@.len() == config.contributors@.len(),
                fx@ == old(fx)@ + transfers(config@, ctx@.contract, amounts(paid@), i as int),
            decreases paid@.len() - i,
        {
            assert(config@.contributors[i as int].0 == config.contributors@[i as int].0@);
            if paid[i] > 0 {
                fx.transfer(&config.token, &ctx.contract, &config.contributors[i].0, paid[i]);
            }
            i = i + 1;
        }
    }

    /// How many payouts there were.
    pub fn payout_count(&self) -> (n: u32)
        ensures
            n == self@.count,
    {
        self.count
    }

    /// The receipt of a payout, by its number from one on.
    pub fn get_payout(&self, tx_count: u32) -> (r: Result<PayoutRecord, Error>)
        requires
            self@.records.contains_key(payout_name(tx_count as nat)) ==> self@.records[payout_name(
                tx_count as nat,
            )] is Payout,
        ensures
            view_result(r) == self@.payout(tx_count),
    {
        let name = numbered("pay_", tx_count);
        match self.records.get(&name) {
            Some(Record::Payout(found)) => Ok(found.clone()),
            _ => Err(Error::PayoutNotFound),
        }
    }

    /// The admin names the contract that rates datasets, or another one.
    pub fn set_oracle(&mut self, fx: &mut Effects, oracle_contract: Address) -> (r: Result<
        (),
        Error,
    >)
        ensures
            r == old(self)@.set_oracle(oracle_contract@).answer,
            final(self)@ == old(self)@.set_oracle(oracle_contract@).state,
            final(fx)@ == old(fx)@ + old(self)@.set_oracle(oracle_contract@).effects,
    {
        if self.is_paused() {
            return Err(Error::ContractPaused);
        }
        if self.governance.authorize_admin(fx).is_err() {
            return Err(Error::NotInitialized);
        }
        self.oracle = Some(oracle_contract);
        Ok(())
    }

    /// Keeps the contract itself: were its own entry to lapse, every record
    /// under it would be out of reach, however fresh.
    fn bump_instance(fx: &mut Effects)
        ensures
            final(fx)@ == old(fx)@.push(keep(KeyModel::Instance)),
    {
        fx.keep(StorageKey::Instance);
    }

    /// Keeps a configuration for another full window. Anyone may ask: if it
    /// lapses, whoever registers the shares anew decides what they are, so
    /// every contributor can protect their own.
    pub fn renew_split_ttl(&self, fx: &mut Effects, dataset_id: String) -> (r: Result<(), Error>)
        ensures
            r == self@.renew_split(dataset_id@).answer,
            final(fx)@ == old(fx)@ + self@.renew_split(dataset_id@).effects,
    {
        if !self.records.has(&dataset_id) {
            return Err(Error::SplitConfigNotFound);
        }
        Self::bump_instance(fx);
        fx.keep(StorageKey::Record(dataset_id));
        Ok(())
    }

    /// Keeps a receipt for another full window. Anyone may ask: it is the only
    /// evidence that the payout happened.
    pub fn renew_payout_ttl(&self, fx: &mut Effects, tx_count: u32) -> (r: Result<(), Error>)
        ensures
            r == self@.renew_payout(tx_count).answer,
            final(fx)@ == old(fx)@ + self@.renew_payout(tx_count).effects,
    {
        let name = numbered("pay_", tx_count);
        if !self.records.has(&name) {
            return Err(Error::PayoutNotFound);
        }
        Self::bump_instance(fx);
        fx.keep(StorageKey::Record(name));
        Ok(())
    }

    /// The version of this contract.
    pub fn version() -> (n: u32)
        ensures
            n == 3,
    {
        3
    }

    /// The admin replaces the contract's code.
    pub fn upgrade(&self, ctx: &Context, fx: &mut Effects, new_wasm_hash: Hash32) -> (r: Result<
        (),
        Error,
    >)
        ensures
            r == lifted_answer(self@.governance.upgrade(ctx@, new_wasm_hash@).answer),
            final(fx)@ == old(fx)@ + self@.governance.upgrade(ctx@, new_wasm_hash@).effects,
    {
        lift(self.governance.upgrade(ctx, fx, new_wasm_hash))
    }
}

} // verus!
