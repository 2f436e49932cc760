//! Licenses: who may use a dataset, on which terms, until when.
//!
//! A license is issued for a fee that depends on its kind. What the royalties
//! are paid from is the fee times the multiplier that the quality oracle gives
//! the dataset; where there is no oracle, or it has nothing to say, the fee
//! itself. A license counts while it is active and has not run out; the admin
//! can revoke it, for good.

use crate::governance::{Governance, GovernanceError, GovernanceModel, GovernanceOutcome};
use crate::host::{accept, copy_address, event, keep, refuse, view_opt, view_result, Address, Context,
    ContextModel, EffectModel, Effects, Hash32, KeyModel, Outcome, StorageKey, Value, ValueModel};
use crate::table::Table;
use crate::text::{numbered, numbered_text};
use vstd::prelude::*;

pub mod calls;
pub mod laws;

verus! {

/// The multiplier of a dataset that no oracle rates, in basis points: one.
pub const DEFAULT_ROYALTY_MULTIPLIER_BPS: i128 = 10_000;

/// One, in basis points.
pub const WHOLE_BPS: i128 = 10_000;

/// Why a call is refused.
#[derive(Clone, Copy, Debug, PartialEq, Eq, PartialOrd, Ord, Structural)]
pub enum Error {
    AlreadyInitialized,
    NotInitialized,
    NoAdminProposalPending,
    InsufficientLicenseFee,
    LicenseNotFound,
    /// A write was asked of a frozen contract.
    ContractPaused,
    /// `pause` was asked of a contract that is frozen.
    AlreadyPaused,
    /// `unpause` was asked of a contract that is not frozen.
    NotPaused,
}

impl Error {
    /// The number under which callers see the error.
    pub open spec fn spec_code(self) -> u32 {
        match self {
            Error::AlreadyInitialized => 1,
            Error::NotInitialized => 2,
            Error::NoAdminProposalPending => 3,
            Error::InsufficientLicenseFee => 4,
            Error::LicenseNotFound => 5,
            Error::ContractPaused => 6,
            Error::AlreadyPaused => 7,
            Error::NotPaused => 8,
        }
    }

    /// What the error says.
    pub open spec fn spec_message(self) -> Seq<char> {
        match self {
            Error::AlreadyInitialized => "already initialized"@,
            Error::NotInitialized => "not initialized"@,
            Error::NoAdminProposalPending => "no admin proposal pending"@,
            Error::InsufficientLicenseFee => "insufficient license fee"@,
            Error::LicenseNotFound => "license not found"@,
            Error::ContractPaused => "contract paused"@,
            Error::AlreadyPaused => "already paused"@,
            Error::NotPaused => "not paused"@,
        }
    }

    /// The error by which this contract reports one of its admin's side.
    pub open spec fn of_governance(error: GovernanceError) -> Error {
        match error {
            GovernanceError::AlreadyInitialized => Error::AlreadyInitialized,
            GovernanceError::NotInitialized => Error::NotInitialized,
            GovernanceError::NoAdminProposalPending => Error::NoAdminProposalPending,
            GovernanceError::AlreadyPaused => Error::AlreadyPaused,
            GovernanceError::NotPaused => Error::NotPaused,
        }
    }

    /// The number under which callers see the error.
    pub fn code(&self) -> (r: u32)
        ensures
            r == self.spec_code(),
    {
        match self {
            Error::AlreadyInitialized => 1,
            Error::NotInitialized => 2,
            Error::NoAdminProposalPending => 3,
            Error::InsufficientLicenseFee => 4,
            Error::LicenseNotFound => 5,
            Error::ContractPaused => 6,
            Error::AlreadyPaused => 7,
            Error::NotPaused => 8,
        }
    }

    /// What the error says.
    pub fn message(&self) -> (r: &'static str)
        ensures
            r@ == self.spec_message(),
    {
        match self {
            Error::AlreadyInitialized => "already initialized",
            Error::NotInitialized => "not initialized",
            Error::NoAdminProposalPending => "no admin proposal pending",
            Error::InsufficientLicenseFee => "insufficient license fee",
            Error::LicenseNotFound => "license not found",
            Error::ContractPaused => "contract paused",
            Error::AlreadyPaused => "already paused",
            Error::NotPaused => "not paused",
        }
    }
}

fn lift(answer: Result<(), GovernanceError>) -> (r: Result<(), Error>)
    ensures
        r == lifted_answer(answer),
{
    match answer {
        Ok(_) => Ok(()),
        Err(GovernanceError::AlreadyInitialized) => Err(Error::AlreadyInitialized),
        Err(GovernanceError::NotInitialized) => Err(Error::NotInitialized),
        Err(GovernanceError::NoAdminProposalPending) => Err(Error::NoAdminProposalPending),
        Err(GovernanceError::AlreadyPaused) => Err(Error::AlreadyPaused),
        Err(GovernanceError::NotPaused) => Err(Error::NotPaused),
    }
}

/// An answer of the admin's side, as this contract reports it.
pub open spec fn lifted_answer(answer: Result<(), GovernanceError>) -> Result<(), Error> {
    match answer {
        Ok(_) => Ok(()),
        Err(e) => Err(Error::of_governance(e)),
    }
}

/// What a license is for.
#[derive(Clone, Copy, Debug, PartialEq, Eq, Structural)]
pub enum LicenseType {
    /// Not commercial, attribution required.
    Research,
    /// Full commercial rights.
    Commercial,
    /// Use by an NGO or for teaching.
    NonProfit,
    /// Use by a government, with audit rights.
    Government,
}

/// Where a license stands.
#[derive(Clone, Copy, Debug, PartialEq, Eq, Structural)]
pub enum LicenseState {
    Active,
    Expired,
    Revoked,
}

/// A license.
#[derive(Debug, PartialEq, Eq)]
pub struct License {
    pub id: String,
    pub dataset_id: String,
    pub licensee: Address,
    pub license_type: LicenseType,
    pub state: LicenseState,
    /// What the licensee paid.
    pub fee_paid_stroops: i128,
    /// The fee times the dataset's multiplier: what royalties are paid from.
    pub effective_royalty_stroops: i128,
    pub issued_ledger: u32,
    /// The last ledger on which the license counts.
    pub expiry_ledger: u32,
    /// A country code, or "GLOBAL".
    pub region_code: String,
}

#[verifier::ext_equal]
pub struct LicenseModel {
    pub id: Seq<char>,
    pub dataset_id: Seq<char>,
    pub licensee: Seq<char>,
    pub license_type: LicenseType,
    pub state: LicenseState,
    pub fee_paid_stroops: i128,
    pub effective_royalty_stroops: i128,
    pub issued_ledger: u32,
    pub expiry_ledger: u32,
    pub region_code: Seq<char>,
}

impl View for License {
    type V = LicenseModel;

    open spec fn view(&self) -> LicenseModel {
        LicenseModel {
            id: self.id@,
            dataset_id: self.dataset_id@,
            licensee: self.licensee@,
            license_type: self.license_type,
            state: self.state,
            fee_paid_stroops: self.fee_paid_stroops,
            effective_royalty_stroops: self.effective_royalty_stroops,
            issued_ledger: self.issued_ledger,
            expiry_ledger: self.expiry_ledger,
            region_code: self.region_code@,
        }
    }
}

impl Clone for License {
    fn clone(&self) -> (r: Self)
        ensures
            r@ == self@,
    {
        License {
            id: self.id.clone(),
            dataset_id: self.dataset_id.clone(),
            licensee: self.licensee.clone(),
            license_type: self.license_type,
            state: self.state,
            fee_paid_stroops: self.fee_paid_stroops,
            effective_royalty_stroops: self.effective_royalty_stroops,
            issued_ledger: self.issued_ledger,
            expiry_ledger: self.expiry_ledger,
            region_code: self.region_code.clone(),
        }
    }
}

impl LicenseModel {
    /// Whether the license counts on ledger `sequence`.
    pub open spec fn valid_on(self, sequence: u32) -> bool {
        self.state == LicenseState::Active && sequence <= self.expiry_ledger
    }
}

/// The least that a license of a kind costs.
pub open spec fn min_fee(license_type: LicenseType) -> i128 {
    match license_type {
        LicenseType::Research => 0,
        LicenseType::NonProfit => 1_000_000,
        LicenseType::Government => 10_000_000,
        LicenseType::Commercial => 100_000_000,
    }
}

/// The router contract.
#[derive(Clone, Debug)]
pub struct LicenseRouter {
    pub governance: Governance,
    /// The contract that holds the datasets.
    pub registry: Option<Address>,
    /// The contract that rates the datasets.
    pub oracle: Option<Address>,
    /// How many licenses were issued.
    pub count: u32,
    pub licenses: Table<String, License>,
}

#[verifier::ext_equal]
pub struct LicenseRouterModel {
    pub governance: GovernanceModel,
    pub registry: Option<Seq<char>>,
    pub oracle: Option<Seq<char>>,
    pub count: u32,
    pub licenses: Map<Seq<char>, LicenseModel>,
}

impl View for LicenseRouter {
    type V = LicenseRouterModel;

    open spec fn view(&self) -> LicenseRouterModel {
        LicenseRouterModel {
            governance: self.governance@,
            registry: view_opt(self.registry),
            oracle: view_opt(self.oracle),
            count: self.count,
            licenses: self.licenses@,
        }
    }
}

pub type CallOutcome = Outcome<LicenseRouterModel, (), Error>;

pub type IssueOutcome = Outcome<LicenseRouterModel, Seq<char>, Error>;

/// The id of the license numbered `n`.
pub open spec fn license_id(n: nat) -> Seq<char> {
    numbered_text("lic_"@, n)
}

/// What a licensee asks for.
#[verifier::ext_equal]
pub struct Order {
    pub licensee: Seq<char>,
    pub dataset_id: Seq<char>,
    pub license_type: LicenseType,
    pub region_code: Seq<char>,
    pub duration_ledgers: u32,
    pub fee_paid_stroops: i128,
}

impl LicenseRouterModel {
    /// Before anyone initialized the contract.
    pub open spec fn fresh() -> Self {
        LicenseRouterModel {
            governance: GovernanceModel::fresh(),
            registry: None,
            oracle: None,
            count: 0,
            licenses: Map::empty(),
        }
    }

    /// What the admin's side answers, as an outcome of the contract.
    pub open spec fn governed(self, outcome: GovernanceOutcome) -> CallOutcome {
        Outcome {
            answer: lifted_answer(outcome.answer),
            state: LicenseRouterModel { governance: outcome.state, ..self },
            effects: outcome.effects,
        }
    }

    pub open spec fn with_license(self, id: Seq<char>, license: LicenseModel) -> Self {
        LicenseRouterModel { licenses: self.licenses.insert(id, license), ..self }
    }

    pub open spec fn initialize(self, admin: Seq<char>, registry: Seq<char>) -> CallOutcome {
        let outcome = self.governed(self.governance.initialize(admin));
        if outcome.answer is Ok {
            Outcome {
                state: LicenseRouterModel { registry: Some(registry), count: 0, ..outcome.state },
                effects: outcome.effects + seq![keep(KeyModel::Instance)],
                ..outcome
            }
        } else {
            outcome
        }
    }

    /// The multiplier that applies, given the oracle's reply: `None` where it
    /// gave none.
    pub open spec fn multiplier(self, reply: Option<u32>) -> int {
        match reply {
            Some(bps) if self.oracle is Some => bps as int,
            _ => DEFAULT_ROYALTY_MULTIPLIER_BPS as int,
        }
    }

    pub open spec fn issue_fault(self, order: Order) -> Option<Error> {
        if self.governance.paused {
            Some(Error::ContractPaused)
        } else if order.fee_paid_stroops < min_fee(order.license_type) {
            Some(Error::InsufficientLicenseFee)
        } else {
            None
        }
    }

    /// Whether the next id, the royalty base and the last ledger can be
    /// represented.
    pub open spec fn has_room(self, ctx: ContextModel, order: Order, reply: Option<u32>) -> bool {
        &&& self.count < u32::MAX
        &&& order.fee_paid_stroops * self.multiplier(reply) <= i128::MAX
        &&& ctx.sequence + order.duration_ledgers <= u32::MAX
    }

    /// The license that is issued next.
    pub open spec fn issued(
        self,
        ctx: ContextModel,
        order: Order,
        reply: Option<u32>,
    ) -> LicenseModel {
        LicenseModel {
            id: license_id((self.count + 1) as nat),
            dataset_id: order.dataset_id,
            licensee: order.licensee,
            license_type: order.license_type,
            state: LicenseState::Active,
            fee_paid_stroops: order.fee_paid_stroops,
            effective_royalty_stroops: (order.fee_paid_stroops * self.multiplier(reply)
                / WHOLE_BPS as int) as i128,
            issued_ledger: ctx.sequence,
            expiry_ledger: (ctx.sequence + order.duration_ledgers) as u32,
            region_code: order.region_code,
        }
    }

    pub open spec fn issue(
        self,
        ctx: ContextModel,
        order: Order,
        reply: Option<u32>,
    ) -> IssueOutcome {
        let asked = if self.governance.paused {
            seq![]
        } else {
            seq![EffectModel::Authorize(order.licensee)]
        };
        let license = self.issued(ctx, order, reply);
        match self.issue_fault(order) {
            Some(e) => refuse(self, asked, e),
            None => accept(
                LicenseRouterModel {
                    count: (self.count + 1) as u32,
                    licenses: self.licenses.insert(license.id, license),
                    ..self
                },
                asked + seq![
                    keep(KeyModel::Instance),
                    keep(KeyModel::License(license.id)),
                    event(
                        "license"@,
                        "issued"@,
                        seq![
                            ValueModel::Text(license.id),
                            ValueModel::Text(order.dataset_id),
                            ValueModel::Account(order.licensee),
                            ValueModel::I128(order.fee_paid_stroops),
                            ValueModel::I128(license.effective_royalty_stroops),
                        ],
                    ),
                ],
                license.id,
            ),
        }
    }

    /// A license can be revoked again: it stays revoked.
    pub open spec fn revoke(self, id: Seq<char>) -> CallOutcome {
        let asked = self.governance.admin_asked();
        if self.governance.paused {
            refuse(self, seq![], Error::ContractPaused)
        } else if self.governance.admin is None {
            refuse(self, asked, Error::NotInitialized)
        } else if !self.licenses.contains_key(id) {
            refuse(self, asked, Error::LicenseNotFound)
        } else {
            accept(
                self.with_license(
                    id,
                    LicenseModel { state: LicenseState::Revoked, ..self.licenses[id] },
                ),
                asked + seq![
                    keep(KeyModel::Instance),
                    keep(KeyModel::License(id)),
                    event("license"@, "revoked"@, seq![ValueModel::Text(id)]),
                ],
                (),
            )
        }
    }

    pub open spec fn set_oracle(self, oracle: Seq<char>) -> CallOutcome {
        let asked = self.governance.admin_asked();
        if self.governance.paused {
            refuse(self, seq![], Error::ContractPaused)
        } else if self.governance.admin is None {
            refuse(self, asked, Error::NotInitialized)
        } else {
            accept(LicenseRouterModel { oracle: Some(oracle), ..self }, asked, ())
        }
    }

    pub open spec fn renew(self, id: Seq<char>) -> CallOutcome {
        if !self.licenses.contains_key(id) {
            refuse(self, seq![], Error::LicenseNotFound)
        } else {
            accept(self, seq![keep(KeyModel::Instance), keep(KeyModel::License(id))], ())
        }
    }

    /// Whether the license under `id` counts on ledger `sequence`.
    pub open spec fn valid(self, id: Seq<char>, sequence: u32) -> bool {
        self.licenses.contains_key(id) && self.licenses[id].valid_on(sequence)
    }
}

impl LicenseRouter {
    /// A contract that nobody initialized yet.
    pub fn new() -> (r: Self)
        ensures
            r@ == LicenseRouterModel::fresh(),
    {
        LicenseRouter {
            governance: Governance::new(),
            registry: None,
            oracle: None,
            count: 0,
            licenses: Table::new(),
        }
    }

    /// Makes `admin` the first admin, of a router for the datasets of
    /// `registry_contract`.
    pub fn initialize(
        &mut self,
        fx: &mut Effects,
        admin: Address,
        registry_contract: Address,
    ) -> (r: Result<(), Error>)
        ensures
            r == old(self)@.initialize(admin@, registry_contract@).answer,
            final(self)@ == old(self)@.initialize(admin@, registry_contract@).state,
            final(fx)@ == old(fx)@ + old(self)@.initialize(admin@, registry_contract@).effects,
    {
        let answer = lift(self.governance.initialize(fx, admin));
        if answer.is_ok() {
            self.registry = Some(registry_contract);
            self.count = 0;
            Self::bump_instance(fx);
        }
        answer
    }

    /// The first step of an admin handover: the admin proposes a successor.
    /// Control moves only once the successor accepts, so a stolen key alone
    /// cannot hand the contract to someone who did not sign.
    pub fn propose_admin(&mut self, fx: &mut Effects, new_admin: Address) -> (r: Result<(), Error>)
        ensures
            ({
                let outcome = old(self)@.governed(old(self)@.governance.propose(new_admin@));
                &&& r == outcome.answer
                &&& final(self)@ == outcome.state
                &&& final(fx)@ == old(fx)@ + outcome.effects
            }),
    {
        lift(self.governance.propose(fx, new_admin))
    }

    /// The second step: the successor accepts.
    pub fn accept_admin(&mut self, fx: &mut Effects) -> (r: Result<(), Error>)
        ensures
            ({
                let outcome = old(self)@.governed(old(self)@.governance.accept_proposal());
                &&& r == outcome.answer
                &&& final(self)@ == outcome.state
                &&& final(fx)@ == old(fx)@ + outcome.effects
            }),
    {
        lift(self.governance.accept_proposal(fx))
    }

    /// Freezes every write. Reads stay available.
    pub fn pause(&mut self, ctx: &Context, fx: &mut Effects) -> (r: Result<(), Error>)
        ensures
            ({
                let outcome = old(self)@.governed(old(self)@.governance.pause(ctx@));
                &&& r == outcome.answer
                &&& final(self)@ == outcome.state
                &&& final(fx)@ == old(fx)@ + outcome.effects
            }),
    {
        lift(self.governance.pause(ctx, fx))
    }

    /// Ends the freeze.
    pub fn unpause(&mut self, ctx: &Context, fx: &mut Effects) -> (r: Result<(), Error>)
        ensures
            ({
                let outcome = old(self)@.governed(old(self)@.governance.unpause(ctx@));
                &&& r == outcome.answer
                &&& final(self)@ == outcome.state
                &&& final(fx)@ == old(fx)@ + outcome.effects
            }),
    {
        lift(self.governance.unpause(ctx, fx))
    }

    /// Whether writes are frozen.
    pub fn is_paused(&self) -> (b: bool)
        ensures
            b == self@.governance.paused,
    {
        self.governance.paused
    }

    /// The contract that is asked for the multiplier of a dataset before a
    /// license for it is issued, if any.
    pub fn oracle_to_ask(&self) -> (r: Option<Address>)
        ensures
            view_opt(r) == self@.oracle,
    {
        copy_address(&self.oracle)
    }

    /// The least that a license of a kind costs.
    pub fn min_fee(license_type: LicenseType) -> (fee: i128)
        ensures
            fee == min_fee(license_type),
    {
        match license_type {
            LicenseType::Research => 0,
            LicenseType::NonProfit => 1_000_000,
            LicenseType::Government => 10_000_000,
            LicenseType::Commercial => 100_000_000,
        }
    }

    /// Issues a license under a fresh id. `reply` is the multiplier that the
    /// oracle gave for the dataset; `None` where there is no oracle, or where
    /// asking it failed for whatever reason, which never blocks licensing.
    pub fn issue_license(
        &mut self,
        ctx: &Context,
        fx: &mut Effects,
        licensee: Address,
        dataset_id: String,
        license_type: LicenseType,
        region_code: String,
        duration_ledgers: u32,
        fee_paid_stroops: i128,
        reply: Option<u32>,
    ) -> (r: Result<String, Error>)
        requires
            ({
                let order = Order {
                    licensee: licensee@,
                    dataset_id: dataset_id@,
                    license_type,
                    region_code: region_code@,
                    duration_ledgers,
                    fee_paid_stroops,
                };
                old(self)@.issue_fault(order) is None ==> old(self)@.has_room(ctx@, order, reply)
            }),
        ensures
            ({
                let order = Order {
                    licensee: licensee@,
                    dataset_id: dataset_id@,
                    license_type,
                    region_code: region_code@,
                    duration_ledgers,
                    fee_paid_stroops,
                };
                let outcome = old(self)@.issue(ctx@, order, reply);
                &&& view_result(r) == outcome.answer
                &&& final(self)@ == outcome.state
                &&& final(fx)@ == old(fx)@ + outcome.effects
            }),
    {
        if self.is_paused() {
            return Err(Error::ContractPaused);
        }
        fx.authorize(&licensee);
        if fee_paid_stroops < Self::min_fee(license_type) {
            return Err(Error::InsufficientLicenseFee);
        }
        Self::bump_instance(fx);
        let multiplier: i128 = match reply {
            Some(bps) => if self.oracle.is_some() {
                bps as i128
            } else {
                DEFAULT_ROYALTY_MULTIPLIER_BPS
            },
            None => DEFAULT_ROYALTY_MULTIPLIER_BPS,
        };
        assert(0 <= fee_paid_stroops * multiplier) by (nonlinear_arith)
            requires
                0 <= fee_paid_stroops,
                0 <= multiplier,
        ;
        let effective_royalty_stroops: i128 = fee_paid_stroops * multiplier / WHOLE_BPS;
        let id = numbered("lic_", self.count + 1);
        let license = License {
            id: id.clone(),
            dataset_id: dataset_id.clone(),
            licensee: licensee.clone(),
            license_type,
            state: LicenseState::Active,
            fee_paid_stroops,
            effective_royalty_stroops,
            issued_ledger: ctx.sequence,
            expiry_ledger: ctx.sequence + duration_ledgers,
            region_code,
        };
        self.licenses.set(id.clone(), license);
        self.count = self.count + 1;
        fx.keep(StorageKey::License(id.clone()));

        fx.publish_five(
            "license",
            "issued",
            Value::Text(id.clone()),
            Value::Text(dataset_id),
            Value::Account(licensee),
            Value::I128(fee_paid_stroops),
            Value::I128(effective_royalty_stroops),
        );
        Ok(id)
    }

    /// The admin revokes a license.
    pub fn revoke_license(&mut self, fx: &mut Effects, license_id: String) -> (r: Result<(), Error>)
        ensures
            r == old(self)@.revoke(license_id@).answer,
            final(self)@ == old(self)@.revoke(license_id@).state,
            final(fx)@ == old(fx)@ + old(self)@.revoke(license_id@).effects,
    {
        if self.is_paused() {
            return Err(Error::ContractPaused);
        }
        if self.governance.authorize_admin(fx).is_err() {
            return Err(Error::NotInitialized);
        }
        let mut license = match self.get_license(&license_id) {
            Err(e) => {
                return Err(e);
            },
            Ok(found) => found,
        };
        Self::bump_instance(fx);
        license.state = LicenseState::Revoked;
        self.licenses.set(license_id.clone(), license);
        // The record that proves the revocation must not be the one that lapses.
        fx.keep(StorageKey::License(license_id.clone()));
        fx.publish_one("license", "revoked", Value::Text(license_id));
        Ok(())
    }

    /// Whether a license counts now.
    pub fn is_license_valid(&self, ctx: &Context, license_id: &String) -> (b: bool)
        ensures
            b == self@.valid(license_id@, ctx@.sequence),
    {
        match self.licenses.get(license_id) {
            None => false,
            Some(license) => license.state == LicenseState::Active && ctx.sequence
                <= license.expiry_ledger,
        }
    }

    /// The license under an id.
    pub fn get_license(&self, license_id: &String) -> (r: Result<License, Error>)
        ensures
            view_result(r) == (if self@.licenses.contains_key(license_id@) {
                Ok::<LicenseModel, Error>(self@.licenses[license_id@])
            } else {
                Err(Error::LicenseNotFound)
            }),
    {
        match self.licenses.get(license_id) {
            Some(found) => Ok(found.clone()),
            None => Err(Error::LicenseNotFound),
        }
    }

    /// The admin names the contract that rates datasets, or another one.
    pub fn set_oracle(&mut self, fx: &mut Effects, oracle_contract: Address) -> (r: Result<
        (),
        Error,
    >)
        ensures
            r == old(self)@.set_oracle(oracle_contract@).answer,
            final(self)@ == old(self)@.set_oracle(oracle_contract@).state,
            final(fx)@ == old(fx)@ + old(self)@.set_oracle(oracle_contract@).effects,
    {
        if self.is_paused() {
            return Err(Error::ContractPaused);
        }
        if self.governance.authorize_admin(fx).is_err() {
            return Err(Error::NotInitialized);
        }
        self.oracle = Some(oracle_contract);
        Ok(())
    }

    /// Keeps the contract itself: were its own entry to lapse, every license
    /// under it would be out of reach, however fresh.
    fn bump_instance(fx: &mut Effects)
        ensures
            final(fx)@ == old(fx)@.push(keep(KeyModel::Instance)),
    {
        fx.keep(StorageKey::Instance);
    }

    /// Keeps a license for another full window. Anyone may ask: the right was
    /// paid for, and the licensee may not know about renewals. Whether the
    /// license counts is another matter.
    pub fn renew_license_ttl(&self, fx: &mut Effects, license_id: String) -> (r: Result<(), Error>)
        ensures
            r == self@.renew(license_id@).answer,
            final(fx)@ == old(fx)@ + self@.renew(license_id@).effects,
    {
        if !self.licenses.has(&license_id) {
            return Err(Error::LicenseNotFound);
        }
        Self::bump_instance(fx);
        fx.keep(StorageKey::License(license_id));
        Ok(())
    }

    /// The version of this contract.
    pub fn version() -> (n: u32)
        ensures
            n == 3,
    {
        3
    }

    /// The admin replaces the contract's code.
    pub fn upgrade(&self, ctx: &Context, fx: &mut Effects, new_wasm_hash: Hash32) -> (r: Result<
        (),
        Error,
    >)
        ensures
            r == lifted_answer(self@.governance.upgrade(ctx@, new_wasm_hash@).answer),
            final(fx)@ == old(fx)@ + self@.governance.upgrade(ctx@, new_wasm_hash@).effects,
    {
        lift(self.governance.upgrade(ctx, fx, new_wasm_hash))
    }
}

} // verus!
