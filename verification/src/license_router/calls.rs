//! What each call to the router does, told by the call, by what was stored
//! before it, and by what it answers, stores and asks of the host.

use crate::governance::{GovernanceError, GovernanceModel, GovernanceOutcome};
use crate::host::{keep, view_opt, ContextModel, EffectModel, KeyModel, ValueModel};
use crate::license_router::{license_id, lifted_answer, min_fee, Error, License, LicenseRouter,
    LicenseRouterModel, LicenseState, LicenseType, Order};
use crate::text::decimal;
use vstd::prelude::*;

verus! {

// Records.

/// A license is seen field by field.
pub proof fn law_license_view(x: License)
    ensures
        x@.id == x.id@,
        x@.dataset_id == x.dataset_id@,
        x@.licensee == x.licensee@,
        x@.license_type == x.license_type,
        x@.state == x.state,
        x@.fee_paid_stroops == x.fee_paid_stroops,
        x@.effective_royalty_stroops == x.effective_royalty_stroops,
        x@.issued_ledger == x.issued_ledger,
        x@.expiry_ledger == x.expiry_ledger,
        x@.region_code == x.region_code@,
{
}

/// The router is seen field by field.
pub proof fn law_router_view(x: LicenseRouter)
    ensures
        x@.governance == x.governance@,
        x@.registry == view_opt(x.registry),
        x@.oracle == view_opt(x.oracle),
        x@.count == x.count,
        x@.licenses == x.licenses@,
{
}

/// A new router has no license, no registry, no oracle and no admin.
pub proof fn law_new_router()
    ensures
        LicenseRouterModel::fresh().governance == GovernanceModel::fresh(),
        LicenseRouterModel::fresh().registry is None,
        LicenseRouterModel::fresh().oracle is None,
        LicenseRouterModel::fresh().count == 0,
        forall|id: Seq<char>| !#[trigger] LicenseRouterModel::fresh().licenses.contains_key(id),
{
}

/// The number and the words of each error.
pub proof fn law_errors_are_told_apart(e: Error)
    ensures
        1 <= e.spec_code() <= 8,
        e.spec_code() == 1 <==> e == Error::AlreadyInitialized,
        e.spec_code() == 2 <==> e == Error::NotInitialized,
        e.spec_code() == 3 <==> e == Error::NoAdminProposalPending,
        e.spec_code() == 4 <==> e == Error::InsufficientLicenseFee,
        e.spec_code() == 5 <==> e == Error::LicenseNotFound,
        e.spec_code() == 6 <==> e == Error::ContractPaused,
        e.spec_code() == 7 <==> e == Error::AlreadyPaused,
        e.spec_code() == 8 <==> e == Error::NotPaused,
        Error::AlreadyInitialized.spec_message() == "already initialized"@,
        Error::NotInitialized.spec_message() == "not initialized"@,
        Error::NoAdminProposalPending.spec_message() == "no admin proposal pending"@,
        Error::InsufficientLicenseFee.spec_message() == "insufficient license fee"@,
        Error::LicenseNotFound.spec_message() == "license not found"@,
        Error::ContractPaused.spec_message() == "contract paused"@,
        Error::AlreadyPaused.spec_message() == "already paused"@,
        Error::NotPaused.spec_message() == "not paused"@,
{
}

/// What the admin's side answers is passed on: a refusal under its own name.
pub proof fn law_answers_are_passed_on(e: GovernanceError)
    ensures
        lifted_answer(Ok(())) == Ok::<(), Error>(()),
        lifted_answer(Err(e)) is Err,
        lifted_answer(Err(e)) == Err::<(), Error>(Error::AlreadyInitialized) <==> e
            == GovernanceError::AlreadyInitialized,
        lifted_answer(Err(e)) == Err::<(), Error>(Error::NotInitialized) <==> e
            == GovernanceError::NotInitialized,
        lifted_answer(Err(e)) == Err::<(), Error>(Error::NoAdminProposalPending) <==> e
            == GovernanceError::NoAdminProposalPending,
        lifted_answer(Err(e)) == Err::<(), Error>(Error::AlreadyPaused) <==> e
            == GovernanceError::AlreadyPaused,
        lifted_answer(Err(e)) == Err::<(), Error>(Error::NotPaused) <==> e
            == GovernanceError::NotPaused,
{
}

/// The admin's side changes who runs the router and nothing else; only the
/// first initialization names the registry, starts the count and keeps the
/// contract.
pub proof fn law_admin_side(
    s: LicenseRouterModel,
    outcome: GovernanceOutcome,
    admin: Seq<char>,
    registry: Seq<char>,
)
    ensures
        s.governed(outcome).answer == lifted_answer(outcome.answer),
        s.governed(outcome).effects == outcome.effects,
        s.governed(outcome).state.governance == outcome.state,
        s.governed(outcome).state.registry == s.registry,
        s.governed(outcome).state.oracle == s.oracle,
        s.governed(outcome).state.count == s.count,
        s.governed(outcome).state.licenses == s.licenses,
        s.governance.admin is Some ==> s.initialize(admin, registry).answer == Err::<(), Error>(
            Error::AlreadyInitialized,
        ) && s.initialize(admin, registry).state == s && s.initialize(
            admin,
            registry,
        ).effects.len() == 0,
        s.governance.admin is None ==> {
            let start = s.initialize(admin, registry);
            &&& start.answer is Ok
            &&& start.effects == seq![EffectModel::Authorize(admin), keep(KeyModel::Instance)]
            &&& start.state.governance.admin == Some(admin)
            &&& start.state.governance.proposed == s.governance.proposed
            &&& start.state.governance.paused == s.governance.paused
            &&& start.state.registry == Some(registry)
            &&& start.state.oracle == s.oracle
            &&& start.state.count == 0
            &&& start.state.licenses == s.licenses
        },
{
}

// Issuing.

/// What a license of each kind costs at the least, in stroops.
pub proof fn law_price_list()
    ensures
        min_fee(LicenseType::Research) == 0,
        min_fee(LicenseType::NonProfit) == 1_000_000,
        min_fee(LicenseType::Government) == 10_000_000,
        min_fee(LicenseType::Commercial) == 100_000_000,
{
}

/// The multiplier that an order comes with: the oracle's reply, where there is
/// an oracle and it replied, and else one.
pub open spec fn applied(s: LicenseRouterModel, reply: Option<u32>) -> int {
    if s.oracle is Some && reply is Some {
        reply->0 as int
    } else {
        10_000
    }
}

/// An order is refused where the router is frozen, and else where the fee is
/// below the price of its kind, and only there; a refusal changes nothing.
pub proof fn law_when_a_license_is_issued(
    s: LicenseRouterModel,
    ctx: ContextModel,
    order: Order,
    reply: Option<u32>,
)
    ensures
        ({
            let outcome = s.issue(ctx, order, reply);
            let fee = order.fee_paid_stroops;
            let too_low = match order.license_type {
                LicenseType::Research => fee < 0,
                LicenseType::NonProfit => fee < 1_000_000,
                LicenseType::Government => fee < 10_000_000,
                LicenseType::Commercial => fee < 100_000_000,
            };
            &&& s.governance.paused ==> outcome.answer == Err::<Seq<char>, Error>(
                Error::ContractPaused,
            ) && outcome.effects.len() == 0
            &&& !s.governance.paused && too_low ==> outcome.answer == Err::<Seq<char>, Error>(
                Error::InsufficientLicenseFee,
            ) && outcome.effects == seq![EffectModel::Authorize(order.licensee)]
            &&& !s.governance.paused && !too_low ==> outcome.answer is Ok
            &&& outcome.answer is Err ==> outcome.state == s
            &&& s.issue_fault(order) is None <==> outcome.answer is Ok
        }),
        s.has_room(ctx, order, reply) <==> {
            &&& s.count < u32::MAX
            &&& order.fee_paid_stroops * applied(s, reply) <= i128::MAX
            &&& ctx.sequence + order.duration_ledgers <= u32::MAX
        },
{
}

/// A license is stored on the terms of its order, field by field, active from
/// the current ledger on for as long as was ordered, under the next number; no
/// other license is touched.
pub proof fn law_issued_on_the_order(
    s: LicenseRouterModel,
    ctx: ContextModel,
    order: Order,
    reply: Option<u32>,
)
    requires
        s.issue(ctx, order, reply).answer is Ok,
        s.has_room(ctx, order, reply),
    ensures
        ({
            let outcome = s.issue(ctx, order, reply);
            let id = outcome.answer->Ok_0;
            let license = outcome.state.licenses[id];
            &&& id == "lic_"@ + decimal((s.count + 1) as nat)
            &&& license.id == id
            &&& license.dataset_id == order.dataset_id
            &&& license.licensee == order.licensee
            &&& license.license_type == order.license_type
            &&& license.fee_paid_stroops == order.fee_paid_stroops
            &&& license.region_code == order.region_code
            &&& license.state == LicenseState::Active
            &&& license.issued_ledger == ctx.sequence
            &&& license.expiry_ledger - license.issued_ledger == order.duration_ledgers
            &&& outcome.state.licenses == s.licenses.insert(id, license)
            &&& outcome.state.count == s.count + 1
            &&& outcome.state.governance == s.governance
            &&& outcome.state.registry == s.registry
            &&& outcome.state.oracle == s.oracle
        }),
{
}

/// Royalties are paid from the fee times the multiplier, in ten-thousandths,
/// rounded down.
pub proof fn law_royalty_base(
    s: LicenseRouterModel,
    ctx: ContextModel,
    order: Order,
    reply: Option<u32>,
)
    requires
        s.issue(ctx, order, reply).answer is Ok,
        s.has_room(ctx, order, reply),
    ensures
        ({
            let outcome = s.issue(ctx, order, reply);
            let base = outcome.state.licenses[outcome.answer->Ok_0].effective_royalty_stroops;
            let exact = order.fee_paid_stroops * applied(s, reply);
            &&& 0 <= base
            &&& base * 10_000 <= exact < (base + 1) * 10_000
        }),
{
    let fee = order.fee_paid_stroops as int;
    let exact = fee * applied(s, reply);
    assert(0 <= exact) by (nonlinear_arith)
        requires
            exact == fee * applied(s, reply),
            0 <= fee,
            0 <= applied(s, reply),
    ;
}

/// A license takes the licensee's signature, is kept, and is announced with
/// what was paid and what royalties are paid from.
pub proof fn law_issue_is_announced(
    s: LicenseRouterModel,
    ctx: ContextModel,
    order: Order,
    reply: Option<u32>,
)
    requires
        s.issue(ctx, order, reply).answer is Ok,
    ensures
        ({
            let outcome = s.issue(ctx, order, reply);
            let id = outcome.answer->Ok_0;
            outcome.effects == seq![
                EffectModel::Authorize(order.licensee),
                keep(KeyModel::Instance),
                keep(KeyModel::License(id)),
                EffectModel::Publish {
                    group: "license"@,
                    name: "issued"@,
                    data: seq![
                        ValueModel::Text(id),
                        ValueModel::Text(order.dataset_id),
                        ValueModel::Account(order.licensee),
                        ValueModel::I128(order.fee_paid_stroops),
                        ValueModel::I128(outcome.state.licenses[id].effective_royalty_stroops),
                    ],
                },
            ]
        }),
{
}

// Revocation, and what is asked of a license.

/// The admin, who signs, revokes any license that is stored, which changes
/// nothing of it but that, and no other.
pub proof fn law_revocation(s: LicenseRouterModel, id: Seq<char>)
    ensures
        ({
            let outcome = s.revoke(id);
            let was = s.licenses[id];
            let now = outcome.state.licenses[id];
            &&& outcome.answer is Err ==> outcome.state == s
            &&& if s.governance.paused {
                outcome.answer == Err::<(), Error>(Error::ContractPaused) && outcome.effects.len()
                    == 0
            } else if s.governance.admin is None {
                outcome.answer == Err::<(), Error>(Error::NotInitialized) && outcome.effects.len()
                    == 0
            } else if !s.licenses.contains_key(id) {
                outcome.answer == Err::<(), Error>(Error::LicenseNotFound) && outcome.effects
                    == seq![EffectModel::Authorize(s.governance.admin->0)]
            } else {
                &&& outcome.answer is Ok
                &&& now.state == LicenseState::Revoked
                &&& now.id == was.id
                &&& now.dataset_id == was.dataset_id
                &&& now.licensee == was.licensee
                &&& now.license_type == was.license_type
                &&& now.fee_paid_stroops == was.fee_paid_stroops
                &&& now.effective_royalty_stroops == was.effective_royalty_stroops
                &&& now.issued_ledger == was.issued_ledger
                &&& now.expiry_ledger == was.expiry_ledger
                &&& now.region_code == was.region_code
                &&& outcome.state.licenses == s.licenses.insert(id, now)
                &&& outcome.state.count == s.count
                &&& outcome.state.governance == s.governance
                &&& outcome.state.registry == s.registry
                &&& outcome.state.oracle == s.oracle
                &&& outcome.effects == seq![
                    EffectModel::Authorize(s.governance.admin->0),
                    keep(KeyModel::Instance),
                    keep(KeyModel::License(id)),
                    EffectModel::Publish {
                        group: "license"@,
                        name: "revoked"@,
                        data: seq![ValueModel::Text(id)],
                    },
                ]
            }
        }),
{
}

/// A license counts where it is stored, active, and not past its last ledger.
pub proof fn law_when_a_license_counts(s: LicenseRouterModel, id: Seq<char>, sequence: u32)
    ensures
        s.valid(id, sequence) <==> {
            &&& s.licenses.contains_key(id)
            &&& s.licenses[id].state == LicenseState::Active
            &&& sequence <= s.licenses[id].expiry_ledger
        },
{
}

/// The admin, who signs, names the oracle, which changes nothing else.
pub proof fn law_oracle_is_named(s: LicenseRouterModel, oracle: Seq<char>)
    ensures
        ({
            let outcome = s.set_oracle(oracle);
            &&& outcome.answer is Err ==> outcome.state == s && outcome.effects.len() == 0
            &&& s.governance.paused ==> outcome.answer == Err::<(), Error>(Error::ContractPaused)
            &&& !s.governance.paused && s.governance.admin is None ==> outcome.answer == Err::<
                (),
                Error,
            >(Error::NotInitialized)
            &&& !s.governance.paused && s.governance.admin is Some ==> {
                &&& outcome.answer is Ok
                &&& outcome.state.oracle == Some(oracle)
                &&& outcome.state.registry == s.registry
                &&& outcome.state.count == s.count
                &&& outcome.state.licenses == s.licenses
                &&& outcome.state.governance == s.governance
                &&& outcome.effects == seq![EffectModel::Authorize(s.governance.admin->0)]
            }
        }),
{
}

/// A renewal keeps the contract and a stored license, asks nobody, and changes
/// nothing.
pub proof fn law_renewal(s: LicenseRouterModel, id: Seq<char>)
    ensures
        s.renew(id).state == s,
        !s.licenses.contains_key(id) ==> s.renew(id).answer == Err::<(), Error>(
            Error::LicenseNotFound,
        ) && s.renew(id).effects.len() == 0,
        s.licenses.contains_key(id) ==> s.renew(id).answer is Ok && s.renew(id).effects == seq![
            keep(KeyModel::Instance),
            keep(KeyModel::License(id)),
        ],
{
}

/// Licenses are numbered from one on, behind their own prefix.
pub proof fn law_ids(n: nat)
    ensures
        license_id(n) == "lic_"@ + decimal(n),
{
}

} // verus!
