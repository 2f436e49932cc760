//! What holds of the router as a whole.
//!
//! A [`Request`] is any call that may change the router or ask something of
//! the host, and [`step`] is what comes of it. The laws speak of every request
//! in every sound state.

use crate::governance::GovernanceModel;
use crate::host::{keep, ContextModel, EffectModel, KeyModel, Outcome};
use crate::license_router::{license_id, min_fee, CallOutcome, Error, LicenseModel, LicenseRouterModel,
    LicenseState, LicenseType, Order};
use crate::quality_oracle::{multiplier_of, QualityTier};
use crate::text::lemma_numbered_injective;
use vstd::prelude::*;

verus! {

/// A call to the router. An order comes with the oracle's reply.
pub enum Request {
    Initialize { admin: Seq<char>, registry: Seq<char> },
    ProposeAdmin { successor: Seq<char> },
    AcceptAdmin,
    Pause,
    Unpause,
    Upgrade { hash: Seq<u8> },
    Issue { order: Order, reply: Option<u32> },
    Revoke { id: Seq<char> },
    SetOracle { oracle: Seq<char> },
    Renew { id: Seq<char> },
}

/// What comes of a request.
pub open spec fn step(s: LicenseRouterModel, ctx: ContextModel, request: Request) -> CallOutcome {
    match request {
        Request::Initialize { admin, registry } => s.initialize(admin, registry),
        Request::ProposeAdmin { successor } => s.governed(s.governance.propose(successor)),
        Request::AcceptAdmin => s.governed(s.governance.accept_proposal()),
        Request::Pause => s.governed(s.governance.pause(ctx)),
        Request::Unpause => s.governed(s.governance.unpause(ctx)),
        Request::Upgrade { hash } => s.governed(s.governance.upgrade(ctx, hash)),
        Request::Issue { order, reply } => {
            let outcome = s.issue(ctx, order, reply);
            Outcome {
                answer: match outcome.answer {
                    Ok(_) => Ok(()),
                    Err(e) => Err(e),
                },
                state: outcome.state,
                effects: outcome.effects,
            }
        },
        Request::Revoke { id } => s.revoke(id),
        Request::SetOracle { oracle } => s.set_oracle(oracle),
        Request::Renew { id } => s.renew(id),
    }
}

// The freeze and refusals.

/// The requests that a freeze stops.
pub open spec fn is_write(request: Request) -> bool {
    request is Issue || request is Revoke || request is SetOracle
}

/// A frozen contract refuses every write, changes nothing and asks nobody to
/// authorize anything.
pub proof fn law_frozen(s: LicenseRouterModel, ctx: ContextModel, request: Request)
    requires
        s.governance.paused,
        is_write(request),
    ensures
        step(s, ctx, request).answer == Err::<(), Error>(Error::ContractPaused),
        step(s, ctx, request).state == s,
        step(s, ctx, request).effects.len() == 0,
{
}

/// The state with the freeze set to `paused`.
pub open spec fn with_freeze(s: LicenseRouterModel, paused: bool) -> LicenseRouterModel {
    LicenseRouterModel { governance: GovernanceModel { paused, ..s.governance }, ..s }
}

/// Renewals, the admin handover, upgrades and an initialization go on in a
/// frozen contract as in a live one.
pub proof fn law_open_while_frozen(s: LicenseRouterModel, ctx: ContextModel, request: Request)
    requires
        s.governance.paused,
        request is Initialize || request is ProposeAdmin || request is AcceptAdmin
            || request is Upgrade || request is Renew,
    ensures
        ({
            let live = step(with_freeze(s, false), ctx, request);
            let frozen = step(s, ctx, request);
            &&& frozen.answer == live.answer
            &&& frozen.effects == live.effects
            &&& frozen.state == with_freeze(live.state, true)
        }),
{
}

/// A freeze hides nothing: all that can be read stays as it is.
pub proof fn law_reads_go_on(s: LicenseRouterModel, paused: bool)
    ensures
        with_freeze(s, paused).count == s.count,
        with_freeze(s, paused).licenses == s.licenses,
        with_freeze(s, paused).registry == s.registry,
        with_freeze(s, paused).oracle == s.oracle,
        with_freeze(s, paused).governance.admin == s.governance.admin,
        with_freeze(s, paused).governance.proposed == s.governance.proposed,
{
}

/// A freeze that is lifted leaves the contract as it was.
pub proof fn law_freeze_round_trip(
    s: LicenseRouterModel,
    before: ContextModel,
    after: ContextModel,
)
    requires
        s.governance.admin is Some,
        !s.governance.paused,
    ensures
        ({
            let frozen = step(s, before, Request::Pause);
            let lifted = step(frozen.state, after, Request::Unpause);
            &&& frozen.answer is Ok
            &&& frozen.state.governance.paused
            &&& lifted.answer is Ok
            &&& lifted.state == s
        }),
{
}

/// Whether only authorizations are asked.
pub open spec fn only_authorizations(effects: Seq<EffectModel>) -> bool {
    forall|i: int| 0 <= i < effects.len() ==> (#[trigger] effects[i]) is Authorize
}

/// A refused request changes nothing, and asks for nothing but authorizations.
pub proof fn law_refusal_changes_nothing(
    s: LicenseRouterModel,
    ctx: ContextModel,
    request: Request,
)
    requires
        step(s, ctx, request).answer is Err,
    ensures
        step(s, ctx, request).state == s,
        only_authorizations(step(s, ctx, request).effects),
{
}

/// Whoever becomes the admin has authorized it.
pub proof fn law_new_admin_signed(s: LicenseRouterModel, ctx: ContextModel, request: Request)
    requires
        step(s, ctx, request).state.governance.admin != s.governance.admin,
    ensures
        step(s, ctx, request).state.governance.admin is Some,
        step(s, ctx, request).effects.len() > 0,
        step(s, ctx, request).effects[0] == EffectModel::Authorize(
            step(s, ctx, request).state.governance.admin->0,
        ),
{
}

// What every request keeps.

/// Whether `id` is the id of one of the first `count` licenses.
pub open spec fn numbered_within(id: Seq<char>, count: u32) -> bool {
    exists|n: nat| 1 <= n <= count && id == #[trigger] license_id(n)
}

/// Whether `license` is in order, stored under `id` in a router of `count`.
pub open spec fn in_order(license: LicenseModel, id: Seq<char>, count: u32) -> bool {
    &&& license.id == id
    &&& numbered_within(id, count)
    &&& license.fee_paid_stroops >= min_fee(license.license_type)
    &&& license.effective_royalty_stroops >= 0
    &&& license.issued_ledger <= license.expiry_ledger
}

/// A state that calls have led to.
pub open spec fn sound(s: LicenseRouterModel) -> bool {
    &&& s.licenses.dom().finite()
    &&& s.count == s.licenses.dom().len()
    &&& forall|id: Seq<char>| #[trigger]
        s.licenses.contains_key(id) ==> in_order(s.licenses[id], id, s.count)
}

/// Whether a request does not start the count over: an initialization, on a
/// contract that nobody initialized, after licenses were issued.
pub open spec fn keeps_count(s: LicenseRouterModel, request: Request) -> bool {
    request is Initialize && s.governance.admin is None ==> s.count == 0
}

/// Whether the numbers of what is ordered can be represented.
pub open spec fn has_room(s: LicenseRouterModel, ctx: ContextModel, request: Request) -> bool {
    request matches Request::Issue { order, reply } ==> s.has_room(ctx, order, reply)
}

/// A router starts sound.
pub proof fn law_fresh_is_sound()
    ensures
        sound(LicenseRouterModel::fresh()),
{
}

/// Every request keeps a router sound: ids are issued in order, and no license
/// was sold below the price of its kind.
pub proof fn law_sound_kept(s: LicenseRouterModel, ctx: ContextModel, request: Request)
    requires
        sound(s),
        keeps_count(s, request),
        has_room(s, ctx, request),
    ensures
        sound(step(s, ctx, request).state),
{
    let after = step(s, ctx, request).state;
    match request {
        Request::Issue { order, reply } => {
            if s.issue_fault(order) is None {
                lemma_issue_sound(s, ctx, order, reply);
            }
        },
        Request::Revoke { id } => {
            if step(s, ctx, request).answer is Ok {
                assert(after.licenses.dom() =~= s.licenses.dom());
                assert forall|k: Seq<char>| #[trigger]
                    after.licenses.contains_key(k) implies in_order(
                    after.licenses[k],
                    k,
                    after.count,
                ) by {
                    assert(s.licenses.contains_key(k));
                }
            }
        },
        _ => {
            assert(after.licenses == s.licenses && after.count == s.count);
        },
    }
}

proof fn lemma_next_id_is_fresh(s: LicenseRouterModel)
    requires
        sound(s),
    ensures
        !s.licenses.contains_key(license_id((s.count + 1) as nat)),
{
    let id = license_id((s.count + 1) as nat);
    if s.licenses.contains_key(id) {
        assert(in_order(s.licenses[id], id, s.count));
        let n = choose|n: nat| 1 <= n <= s.count && id == #[trigger] license_id(n);
        lemma_numbered_injective("lic_"@, n, (s.count + 1) as nat);
    }
}

proof fn lemma_issue_sound(
    s: LicenseRouterModel,
    ctx: ContextModel,
    order: Order,
    reply: Option<u32>,
)
    requires
        sound(s),
        s.issue_fault(order) is None,
        s.has_room(ctx, order, reply),
    ensures
        sound(s.issue(ctx, order, reply).state),
{
    let after = s.issue(ctx, order, reply).state;
    let id = license_id((s.count + 1) as nat);
    let fee = order.fee_paid_stroops as int;
    let multiplier = s.multiplier(reply);
    lemma_next_id_is_fresh(s);
    lemma_royalty_base_fits(fee, multiplier);
    assert(after.licenses.dom() =~= s.licenses.dom().insert(id));
    assert forall|k: Seq<char>| #[trigger] after.licenses.contains_key(k) implies in_order(
        after.licenses[k],
        k,
        after.count,
    ) by {
        if k == id {
            assert(numbered_within(id, after.count));
        } else {
            assert(s.licenses.contains_key(k));
            assert(in_order(s.licenses[k], k, s.count));
            let n = choose|n: nat| 1 <= n <= s.count && k == #[trigger] license_id(n);
            assert(1 <= n <= after.count && k == license_id(n));
        }
    }
}

proof fn lemma_royalty_base_fits(fee: int, multiplier: int)
    by (nonlinear_arith)
    requires
        0 <= fee,
        0 <= multiplier,
        fee * multiplier <= i128::MAX,
    ensures
        0 <= fee * multiplier / 10_000 <= fee * multiplier,
{
}

/// A new license never takes the place of one that is stored.
pub proof fn law_issue_is_fresh(
    s: LicenseRouterModel,
    ctx: ContextModel,
    order: Order,
    reply: Option<u32>,
)
    requires
        sound(s),
        s.issue(ctx, order, reply).answer is Ok,
    ensures
        !s.licenses.contains_key(s.issue(ctx, order, reply).answer->Ok_0),
{
    lemma_next_id_is_fresh(s);
}

// Fees and royalties.

/// A license is issued exactly when the contract is not frozen and the fee
/// reaches the price of its kind, whatever the oracle replies.
pub proof fn law_licensing_is_never_blocked(
    s: LicenseRouterModel,
    ctx: ContextModel,
    order: Order,
    reply: Option<u32>,
)
    ensures
        s.issue(ctx, order, reply).answer is Ok <==> !s.governance.paused
            && order.fee_paid_stroops >= min_fee(order.license_type),
{
}

/// Without an oracle, or without a reply of it, royalties are paid from the
/// fee itself.
pub proof fn law_unrated_is_whole(
    s: LicenseRouterModel,
    ctx: ContextModel,
    order: Order,
    reply: Option<u32>,
)
    requires
        s.oracle is None || reply is None,
        s.issue(ctx, order, reply).answer is Ok,
    ensures
        s.issued(ctx, order, reply).effective_royalty_stroops == order.fee_paid_stroops,
{
    let fee = order.fee_paid_stroops as int;
    assert(fee * 10_000 / 10_000 == fee) by (nonlinear_arith);
}

/// A higher multiplier never lowers what royalties are paid from.
pub proof fn law_royalty_grows_with_the_multiplier(
    s: LicenseRouterModel,
    ctx: ContextModel,
    order: Order,
    low: u32,
    high: u32,
)
    requires
        s.oracle is Some,
        low <= high,
        s.issue(ctx, order, Some(high)).answer is Ok,
        s.has_room(ctx, order, Some(high)),
    ensures
        s.issued(ctx, order, Some(low)).effective_royalty_stroops <= s.issued(
            ctx,
            order,
            Some(high),
        ).effective_royalty_stroops,
{
    let fee = order.fee_paid_stroops as int;
    assert(0 <= fee);
    assert(fee * low <= fee * high) by (nonlinear_arith)
        requires
            0 <= fee,
            low <= high,
    ;
    lemma_royalty_base_fits(fee, low as int);
    lemma_royalty_base_fits(fee, high as int);
    assert(fee * low / 10_000 <= fee * high / 10_000) by (nonlinear_arith)
        requires
            fee * low <= fee * high,
    ;
}

/// With the multiplier of a tier, royalties are paid from that part of the
/// fee, rounded down: from three quarters of it to one and a half.
pub proof fn law_royalty_follows_the_tier(
    s: LicenseRouterModel,
    ctx: ContextModel,
    order: Order,
    tier: QualityTier,
)
    requires
        s.oracle is Some,
        s.issue(ctx, order, Some(multiplier_of(tier))).answer is Ok,
        s.has_room(ctx, order, Some(multiplier_of(tier))),
    ensures
        ({
            let fee = order.fee_paid_stroops;
            let base = s.issued(ctx, order, Some(multiplier_of(tier))).effective_royalty_stroops;
            &&& base * 10_000 <= fee * multiplier_of(tier) < (base + 1) * 10_000
            &&& tier == QualityTier::Platinum ==> base == fee * 3 / 2
            &&& tier == QualityTier::Gold ==> base == fee * 5 / 4
            &&& tier == QualityTier::Silver || tier == QualityTier::Unrated ==> base == fee
            &&& tier == QualityTier::Bronze ==> base == fee * 3 / 4
        }),
{
    lemma_royalty_base_fits(order.fee_paid_stroops as int, multiplier_of(tier) as int);
}

/// Research is free; every other kind has its price, in this order.
pub proof fn law_prices(kind: LicenseType)
    ensures
        min_fee(LicenseType::Research) == 0,
        min_fee(LicenseType::Research) < min_fee(LicenseType::NonProfit),
        min_fee(LicenseType::NonProfit) < min_fee(LicenseType::Government),
        min_fee(LicenseType::Government) < min_fee(LicenseType::Commercial),
        min_fee(LicenseType::Research) <= min_fee(kind) <= min_fee(LicenseType::Commercial),
{
}

// The life of a license.

/// A license is never lost, and nothing of it changes but that it is revoked,
/// which takes the admin's authorization.
pub proof fn law_terms_are_fixed(
    s: LicenseRouterModel,
    ctx: ContextModel,
    request: Request,
    id: Seq<char>,
)
    requires
        sound(s),
        s.licenses.contains_key(id),
    ensures
        ({
            let outcome = step(s, ctx, request);
            let before = s.licenses[id];
            let after = outcome.state.licenses[id];
            &&& outcome.state.licenses.contains_key(id)
            &&& after == before || {
                &&& after == (LicenseModel { state: LicenseState::Revoked, ..before })
                &&& request == Request::Revoke { id }
                &&& outcome.effects[0] == EffectModel::Authorize(s.governance.admin->0)
            }
        }),
{
    lemma_next_id_is_fresh(s);
}

/// A revoked license never counts again.
pub proof fn law_revocation_is_final(
    s: LicenseRouterModel,
    ctx: ContextModel,
    request: Request,
    id: Seq<char>,
    sequence: u32,
)
    requires
        sound(s),
        s.licenses.contains_key(id),
        s.licenses[id].state == LicenseState::Revoked,
    ensures
        step(s, ctx, request).state.licenses[id].state == LicenseState::Revoked,
        !step(s, ctx, request).state.valid(id, sequence),
{
    lemma_next_id_is_fresh(s);
}

/// A license counts from its issue to its last ledger, that one included, for
/// as long as it is not revoked.
pub proof fn law_new_license_counts(
    s: LicenseRouterModel,
    ctx: ContextModel,
    order: Order,
    reply: Option<u32>,
    sequence: u32,
)
    requires
        s.issue(ctx, order, reply).answer is Ok,
        s.has_room(ctx, order, reply),
    ensures
        ({
            let outcome = s.issue(ctx, order, reply);
            outcome.state.valid(outcome.answer->Ok_0, sequence) <==> sequence <= ctx.sequence
                + order.duration_ledgers
        }),
{
}

/// Only time and revocation end a license: no other request changes whether
/// one counts, and none makes a stored one count that did not.
pub proof fn law_validity_ends_by_revocation_or_time(
    s: LicenseRouterModel,
    ctx: ContextModel,
    request: Request,
    id: Seq<char>,
    sequence: u32,
)
    requires
        sound(s),
        s.licenses.contains_key(id),
        request != (Request::Revoke { id }),
    ensures
        step(s, ctx, request).state.valid(id, sequence) == s.valid(id, sequence),
{
    lemma_next_id_is_fresh(s);
}

/// Keeping the record of a license does not make it count any longer.
pub proof fn law_renewal_changes_nothing(s: LicenseRouterModel, id: Seq<char>)
    ensures
        s.renew(id).state == s,
{
}

// Lifetimes.

/// Every license that a request writes is kept for the full window, a revoked
/// one too.
pub proof fn law_writes_are_kept(
    s: LicenseRouterModel,
    ctx: ContextModel,
    request: Request,
    id: Seq<char>,
)
    requires
        step(s, ctx, request).state.licenses.contains_key(id),
        !s.licenses.contains_key(id) || step(s, ctx, request).state.licenses[id] != s.licenses[id],
    ensures
        step(s, ctx, request).effects.contains(keep(KeyModel::License(id))),
{
    let fx = step(s, ctx, request).effects;
    assert(fx[2] == keep(KeyModel::License(id)));
}

/// Any request that keeps a license keeps the contract too.
pub proof fn law_contract_outlives_records(
    s: LicenseRouterModel,
    ctx: ContextModel,
    request: Request,
    at: int,
)
    requires
        0 <= at < step(s, ctx, request).effects.len(),
        step(s, ctx, request).effects[at] is Extend,
    ensures
        step(s, ctx, request).effects.contains(keep(KeyModel::Instance)),
{
    let fx = step(s, ctx, request).effects;
    if request is Renew {
        assert(fx[0] == keep(KeyModel::Instance));
    } else {
        assert(fx[1] == keep(KeyModel::Instance));
    }
}

} // verus!
