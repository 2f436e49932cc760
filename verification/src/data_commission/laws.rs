//! What holds of the commissions contract as a whole.
//!
//! A [`Request`] is any call that may change the contract or ask something of
//! the host, and [`step`] is what comes of it. The laws speak of every request
//! in every sound state.

use crate::data_commission::{all_released, commission_id, fit_for_new, milestone_fault,
    none_released, released_total, total, CallOutcome, CommissionModel, CommissionState,
    DataCommissionModel, Error, Milestone, Terms};
use crate::governance::GovernanceModel;
use crate::host::{keep, ContextModel, EffectModel, KeyModel, Outcome};
use crate::sums::{lemma_sum_insert, sum_over};
use crate::text::lemma_numbered_injective;
use vstd::prelude::*;

verus! {

/// A call to the contract.
pub enum Request {
    Initialize { admin: Seq<char> },
    ProposeAdmin { successor: Seq<char> },
    AcceptAdmin,
    Pause,
    Unpause,
    Upgrade { hash: Seq<u8> },
    Post { terms: Terms },
    Fulfil { id: Seq<char>, fulfiller: Seq<char>, dataset_id: Seq<char> },
    Cancel { id: Seq<char> },
    SetMilestones { id: Seq<char>, milestones: Seq<Milestone> },
    Release { id: Seq<char>, index: u32 },
    SetArbiter { arbiter: Seq<char> },
    RaiseDispute { id: Seq<char>, raised_by: Seq<char> },
    Resolve { id: Seq<char>, award: bool, fulfiller: Seq<char>, dataset_id: Seq<char> },
    Renew { id: Seq<char> },
}

/// What comes of a request.
pub open spec fn step(s: DataCommissionModel, ctx: ContextModel, request: Request) -> CallOutcome {
    match request {
        Request::Initialize { admin } => s.initialize(admin),
        Request::ProposeAdmin { successor } => s.governed(s.governance.propose(successor)),
        Request::AcceptAdmin => s.governed(s.governance.accept_proposal()),
        Request::Pause => s.governed(s.governance.pause(ctx)),
        Request::Unpause => s.governed(s.governance.unpause(ctx)),
        Request::Upgrade { hash } => s.governed(s.governance.upgrade(ctx, hash)),
        Request::Post { terms } => {
            let outcome = s.post(ctx, terms);
            Outcome {
                answer: match outcome.answer {
                    Ok(_) => Ok(()),
                    Err(e) => Err(e),
                },
                state: outcome.state,
                effects: outcome.effects,
            }
        },
        Request::Fulfil { id, fulfiller, dataset_id } => s.fulfil(ctx, id, fulfiller, dataset_id),
        Request::Cancel { id } => s.cancel(ctx, id),
        Request::SetMilestones { id, milestones } => s.set_milestones(id, milestones),
        Request::Release { id, index } => s.release(ctx, id, index),
        Request::SetArbiter { arbiter } => s.set_arbiter(arbiter),
        Request::RaiseDispute { id, raised_by } => s.raise_dispute(id, raised_by),
        Request::Resolve { id, award, fulfiller, dataset_id } => s.resolve(
            ctx,
            id,
            award,
            fulfiller,
            dataset_id,
        ),
        Request::Renew { id } => s.renew(id),
    }
}

// The freeze and refusals.

/// The requests that a freeze stops.
pub open spec fn is_write(request: Request) -> bool {
    match request {
        Request::Post { .. } => true,
        Request::Fulfil { .. } => true,
        Request::Cancel { .. } => true,
        Request::SetMilestones { .. } => true,
        Request::Release { .. } => true,
        Request::SetArbiter { .. } => true,
        Request::RaiseDispute { .. } => true,
        Request::Resolve { .. } => true,
        _ => false,
    }
}

/// A frozen contract refuses every write, changes nothing and asks nobody to
/// authorize anything.
pub proof fn law_frozen(s: DataCommissionModel, ctx: ContextModel, request: Request)
    requires
        s.governance.paused,
        is_write(request),
    ensures
        step(s, ctx, request).answer == Err::<(), Error>(Error::ContractPaused),
        step(s, ctx, request).state == s,
        step(s, ctx, request).effects.len() == 0,
{
}

/// The state with the freeze set to `paused`.
pub open spec fn with_freeze(s: DataCommissionModel, paused: bool) -> DataCommissionModel {
    DataCommissionModel { governance: GovernanceModel { paused, ..s.governance }, ..s }
}

/// Renewals, the admin handover, upgrades and an initialization go on in a
/// frozen contract as in a live one.
pub proof fn law_open_while_frozen(s: DataCommissionModel, ctx: ContextModel, request: Request)
    requires
        s.governance.paused,
        request is Initialize || request is ProposeAdmin || request is AcceptAdmin
            || request is Upgrade || request is Renew,
    ensures
        ({
            let live = step(with_freeze(s, false), ctx, request);
            let frozen = step(s, ctx, request);
            &&& frozen.answer == live.answer
            &&& frozen.effects == live.effects
            &&& frozen.state == with_freeze(live.state, true)
        }),
{
}

/// A freeze hides nothing: all that can be read stays as it is.
pub proof fn law_reads_go_on(s: DataCommissionModel, paused: bool)
    ensures
        with_freeze(s, paused).count == s.count,
        with_freeze(s, paused).language_counts == s.language_counts,
        with_freeze(s, paused).commissions == s.commissions,
        with_freeze(s, paused).arbiter == s.arbiter,
        with_freeze(s, paused).governance.admin == s.governance.admin,
        with_freeze(s, paused).governance.proposed == s.governance.proposed,
{
}

/// A freeze that is lifted leaves the contract as it was.
pub proof fn law_freeze_round_trip(s: DataCommissionModel, before: ContextModel, after: ContextModel)
    requires
        s.governance.admin is Some,
        !s.governance.paused,
    ensures
        ({
            let frozen = step(s, before, Request::Pause);
            let lifted = step(frozen.state, after, Request::Unpause);
            &&& frozen.answer is Ok
            &&& frozen.state.governance.paused
            &&& lifted.answer is Ok
            &&& lifted.state == s
        }),
{
}

/// Whether only authorizations are asked.
pub open spec fn only_authorizations(effects: Seq<EffectModel>) -> bool {
    forall|i: int| 0 <= i < effects.len() ==> (#[trigger] effects[i]) is Authorize
}

/// A refused request changes nothing, and asks for nothing but authorizations.
pub proof fn law_refusal_changes_nothing(
    s: DataCommissionModel,
    ctx: ContextModel,
    request: Request,
)
    requires
        step(s, ctx, request).answer is Err,
    ensures
        step(s, ctx, request).state == s,
        only_authorizations(step(s, ctx, request).effects),
{
}

/// Whoever becomes the admin has authorized it.
pub proof fn law_new_admin_signed(s: DataCommissionModel, ctx: ContextModel, request: Request)
    requires
        step(s, ctx, request).state.governance.admin != s.governance.admin,
    ensures
        step(s, ctx, request).state.governance.admin is Some,
        step(s, ctx, request).effects == seq![
            EffectModel::Authorize(step(s, ctx, request).state.governance.admin->0),
        ],
{
}

// What every request keeps.

/// How many of `commissions` are for `language`.
pub open spec fn count_for(
    commissions: Map<Seq<char>, CommissionModel>,
    language: Seq<char>,
) -> int {
    sum_over(commissions, is_for(language))
}

/// One for a commission in `language`, nothing for another.
pub open spec fn is_for(language: Seq<char>) -> spec_fn(CommissionModel) -> int {
    |c: CommissionModel|
        if c.language_code == language {
            1int
        } else {
            0int
        }
}

/// Whether nothing is released of a commission without a fulfiller, nor of one
/// that is disputed.
pub open spec fn unpaid_while_undecided(c: CommissionModel) -> bool {
    c.fulfiller is None || c.state == CommissionState::Disputed ==> none_released(c.milestones)
}

/// Whether `id` is the id of one of the first `count` commissions.
pub open spec fn issued(id: Seq<char>, count: u32) -> bool {
    exists|n: nat| 1 <= n <= count && id == #[trigger] commission_id(n)
}

/// A counter's value.
pub open spec fn counted() -> spec_fn(u32) -> int {
    |n: u32| n as int
}

/// A state that calls have led to: every commission is stored under its own
/// id, which was issued; it is sound; and the counters count the commissions.
pub open spec fn sound(s: DataCommissionModel) -> bool {
    &&& s.commissions.dom().finite()
    &&& s.count == s.commissions.dom().len()
    &&& forall|language: Seq<char>|
        #[trigger] s.language_count(language) == count_for(s.commissions, language)
    &&& s.language_counts.dom().finite()
    &&& sum_over(s.language_counts, counted()) == s.count
    &&& forall|id: Seq<char>| #[trigger]
        s.commissions.contains_key(id) ==> {
            &&& s.commissions[id].id == id
            &&& issued(id, s.count)
            &&& s.commissions[id].sound()
            &&& unpaid_while_undecided(s.commissions[id])
        }
}

/// Whether a request does not start the count over: an initialization, on a
/// contract that nobody initialized, after commissions were posted.
pub open spec fn keeps_count(s: DataCommissionModel, request: Request) -> bool {
    request is Initialize && s.governance.admin is None ==> s.count == 0
}

/// Whether the counters have room for what is posted.
pub open spec fn has_room(s: DataCommissionModel, request: Request) -> bool {
    request matches Request::Post { terms } ==> s.has_room(terms.language_code)
}

/// A contract starts sound.
pub proof fn law_fresh_is_sound()
    ensures
        sound(DataCommissionModel::fresh()),
{
}

/// Every request keeps a contract sound.
pub proof fn law_sound_kept(s: DataCommissionModel, ctx: ContextModel, request: Request)
    requires
        sound(s),
        keeps_count(s, request),
        has_room(s, request),
    ensures
        sound(step(s, ctx, request).state),
{
    let after = step(s, ctx, request).state;
    match request {
        Request::Post { terms } => {
            if s.post_fault(ctx, terms) is None {
                lemma_post_sound(s, ctx, terms);
            }
        },
        Request::Fulfil { id, fulfiller, dataset_id } => {
            if s.fulfil_fault(ctx, id) is None {
                lemma_update_sound(s, id, after.commissions[id]);
            }
        },
        Request::Cancel { id } => {
            if s.cancel_fault(id) is None {
                lemma_update_sound(s, id, after.commissions[id]);
            }
        },
        Request::SetMilestones { id, milestones } => {
            if s.set_milestones_fault(id, milestones) is None {
                lemma_milestones_fit(milestones, s.commissions[id].bounty_amount as int, 0);
                lemma_update_sound(s, id, after.commissions[id]);
            }
        },
        Request::Release { id, index } => {
            if s.release_fault(id, index) is None {
                let c = s.commissions[id];
                let m = Milestone { released: true, ..c.milestones[index as int] };
                lemma_total_update(c.milestones, index as int, m);
                assert forall|i: int| 0 <= i < c.milestones.len() implies (
                #[trigger] after.commissions[id].milestones[i]).amount > 0 by {
                    assert(c.milestones[i].amount > 0);
                }
                lemma_update_sound(s, id, after.commissions[id]);
            }
        },
        Request::RaiseDispute { id, raised_by } => {
            if s.raise_fault(id, raised_by) is None {
                lemma_update_sound(s, id, after.commissions[id]);
            }
        },
        Request::Resolve { id, award, fulfiller, dataset_id } => {
            if s.resolve_fault(id) is None {
                lemma_update_sound(s, id, after.commissions[id]);
            }
        },
        _ => {
            assert(after.commissions == s.commissions);
            assert(after.language_counts == s.language_counts);
            assert(after.count == s.count);
            assert forall|language: Seq<char>| #[trigger]
                after.language_count(language) == count_for(after.commissions, language) by {
                assert(s.language_count(language) == count_for(s.commissions, language));
            }
        },
    }
}

/// The counters of all languages add up to the count of commissions.
pub proof fn law_languages_add_up(s: DataCommissionModel)
    requires
        sound(s),
    ensures
        sum_over(s.language_counts, counted()) == s.count,
{
}

/// A new commission never takes the place of one that is stored.
pub proof fn law_post_is_fresh(s: DataCommissionModel, ctx: ContextModel, terms: Terms)
    requires
        sound(s),
        s.post(ctx, terms).answer is Ok,
    ensures
        !s.commissions.contains_key(s.post(ctx, terms).answer->Ok_0),
{
    lemma_next_id_is_fresh(s);
}

proof fn lemma_next_id_is_fresh(s: DataCommissionModel)
    requires
        sound(s),
    ensures
        !s.commissions.contains_key(commission_id((s.count + 1) as nat)),
{
    let id = commission_id((s.count + 1) as nat);
    if s.commissions.contains_key(id) {
        let n = choose|n: nat| 1 <= n <= s.count && id == #[trigger] commission_id(n);
        lemma_numbered_injective("com_"@, n, (s.count + 1) as nat);
    }
}

proof fn lemma_post_sound(s: DataCommissionModel, ctx: ContextModel, terms: Terms)
    requires
        sound(s),
        s.post_fault(ctx, terms) is None,
        s.has_room(terms.language_code),
    ensures
        sound(s.post(ctx, terms).state),
{
    let after = s.post(ctx, terms).state;
    let id = commission_id((s.count + 1) as nat);
    let c = s.posted(terms);
    lemma_next_id_is_fresh(s);
    lemma_sum_insert(
        s.language_counts,
        counted(),
        terms.language_code,
        (s.language_count(terms.language_code) + 1) as u32,
    );
    assert(after.commissions == s.commissions.insert(id, c));
    assert(after.commissions.dom() =~= s.commissions.dom().insert(id));
    assert forall|language: Seq<char>| #[trigger]
        after.language_count(language) == count_for(after.commissions, language) by {
        assert(s.language_count(language) == count_for(s.commissions, language));
        lemma_sum_insert(s.commissions, is_for(language), id, c);
    }
    assert forall|k: Seq<char>| #[trigger] after.commissions.contains_key(k) implies {
        &&& after.commissions[k].id == k
        &&& issued(k, after.count)
        &&& after.commissions[k].sound()
        &&& unpaid_while_undecided(after.commissions[k])
    } by {
        if k == id {
            assert(issued(id, after.count));
        } else {
            assert(s.commissions.contains_key(k));
            let n = choose|n: nat| 1 <= n <= s.count && k == #[trigger] commission_id(n);
            assert(1 <= n <= after.count && k == commission_id(n));
        }
    }
}

proof fn lemma_update_sound(s: DataCommissionModel, id: Seq<char>, c: CommissionModel)
    requires
        sound(s),
        s.commissions.contains_key(id),
        c.id == id,
        c.language_code == s.commissions[id].language_code,
        c.sound(),
        unpaid_while_undecided(c),
    ensures
        sound(s.with_commission(id, c)),
{
    let after = s.with_commission(id, c);
    assert(after.commissions.dom() =~= s.commissions.dom());
    assert forall|language: Seq<char>| #[trigger]
        after.language_count(language) == count_for(after.commissions, language) by {
        assert(s.language_count(language) == count_for(s.commissions, language));
        lemma_sum_insert(s.commissions, is_for(language), id, c);
    }
    assert forall|k: Seq<char>| #[trigger] after.commissions.contains_key(k) implies {
        &&& after.commissions[k].id == k
        &&& issued(k, after.count)
        &&& after.commissions[k].sound()
        &&& unpaid_while_undecided(after.commissions[k])
    } by {
        assert(s.commissions.contains_key(k));
    }
}

/// With positive amounts, a longer run of milestones never adds up to less.
pub proof fn lemma_total_grows(milestones: Seq<Milestone>, from: int, to: int)
    requires
        0 <= from <= to <= milestones.len(),
        forall|i: int| 0 <= i < milestones.len() ==> (#[trigger] milestones[i]).amount > 0,
    ensures
        0 <= total(milestones.take(from)) <= total(milestones.take(to)),
    decreases to,
{
    if to > 0 {
        assert(milestones.take(to).drop_last() =~= milestones.take(to - 1));
        if from < to {
            lemma_total_grows(milestones, from, to - 1);
        } else {
            lemma_total_grows(milestones, to - 1, to - 1);
        }
    }
}

/// Whether `milestones` divide `bounty`: every one is worth something, none is
/// released, and together they are worth the bounty.
pub open spec fn divide(milestones: Seq<Milestone>, bounty: int) -> bool {
    &&& forall|i: int| 0 <= i < milestones.len() ==> (#[trigger] milestones[i]).amount > 0
    &&& none_released(milestones)
    &&& total(milestones) == bounty
}

/// New milestones are accepted exactly where they divide the bounty.
pub proof fn law_milestones_divide_the_bounty(milestones: Seq<Milestone>, bounty: int)
    ensures
        milestone_fault(milestones, bounty, 0) is None <==> divide(milestones, bounty),
{
    if milestone_fault(milestones, bounty, 0) is None {
        lemma_milestones_fit(milestones, bounty, 0);
        assert forall|i: int| 0 <= i < milestones.len() implies (#[trigger] milestones[i]).amount
            > 0 && !milestones[i].released by {
            assert(fit_for_new(milestones[i]));
        }
    }
    if divide(milestones, bounty) {
        lemma_division_is_accepted(milestones, bounty, 0);
    }
}

proof fn lemma_division_is_accepted(milestones: Seq<Milestone>, bounty: int, from: int)
    requires
        divide(milestones, bounty),
        0 <= from <= milestones.len(),
    ensures
        milestone_fault(milestones, bounty, from) is None,
    decreases milestones.len() - from,
{
    if from < milestones.len() {
        lemma_division_is_accepted(milestones, bounty, from + 1);
    }
}

proof fn lemma_milestones_fit(milestones: Seq<Milestone>, bounty: int, from: int)
    requires
        0 <= from <= milestones.len(),
        milestone_fault(milestones, bounty, from) is None,
    ensures
        forall|i: int| from <= i < milestones.len() ==> fit_for_new(#[trigger] milestones[i]),
        total(milestones) == bounty,
    decreases milestones.len() - from,
{
    if from < milestones.len() {
        lemma_milestones_fit(milestones, bounty, from + 1);
    }
}

proof fn lemma_total_update(milestones: Seq<Milestone>, at: int, m: Milestone)
    requires
        0 <= at < milestones.len(),
        m.amount == milestones[at].amount,
    ensures
        total(milestones.update(at, m)) == total(milestones),
    decreases milestones.len(),
{
    let after = milestones.update(at, m);
    if at == milestones.len() - 1 {
        assert(after.drop_last() =~= milestones.drop_last());
    } else {
        assert(after.drop_last() =~= milestones.drop_last().update(at, m));
        lemma_total_update(milestones.drop_last(), at, m);
    }
}

// What is over stays over.

/// A fulfilled or cancelled commission is never changed again.
pub proof fn law_closed_is_final(
    s: DataCommissionModel,
    ctx: ContextModel,
    request: Request,
    id: Seq<char>,
)
    requires
        sound(s),
        s.commissions.contains_key(id),
        s.commissions[id].state == CommissionState::Fulfilled || s.commissions[id].state
            == CommissionState::Cancelled,
    ensures
        step(s, ctx, request).state.commissions.contains_key(id),
        step(s, ctx, request).state.commissions[id] == s.commissions[id],
{
    if let Request::Post { terms } = request {
        lemma_next_id_is_fresh(s);
    }
}

/// Whether two records are of one commission, on the same terms.
pub open spec fn same_terms(a: CommissionModel, b: CommissionModel) -> bool {
    &&& a.id == b.id
    &&& a.commissioner == b.commissioner
    &&& a.language_code == b.language_code
    &&& a.description_hash == b.description_hash
    &&& a.bounty_token == b.bounty_token
    &&& a.bounty_amount == b.bounty_amount
    &&& a.min_sample_count == b.min_sample_count
    &&& a.min_duration_seconds == b.min_duration_seconds
    &&& a.deadline_ledger == b.deadline_ledger
}

/// No commission is ever lost, and its terms never change.
pub proof fn law_terms_are_fixed(
    s: DataCommissionModel,
    ctx: ContextModel,
    request: Request,
    id: Seq<char>,
)
    requires
        sound(s),
        s.commissions.contains_key(id),
    ensures
        step(s, ctx, request).state.commissions.contains_key(id),
        same_terms(step(s, ctx, request).state.commissions[id], s.commissions[id]),
{
    if let Request::Post { terms } = request {
        lemma_next_id_is_fresh(s);
    } else {
        lemma_terms_are_fixed(s, ctx, request, id);
    }
}

proof fn lemma_terms_are_fixed(
    s: DataCommissionModel,
    ctx: ContextModel,
    request: Request,
    id: Seq<char>,
)
    requires
        s.commissions.contains_key(id),
        !(request is Post),
    ensures
        step(s, ctx, request).state.commissions.contains_key(id),
        same_terms(step(s, ctx, request).state.commissions[id], s.commissions[id]),
{
    let after = step(s, ctx, request).state;
    match request {
        Request::Fulfil { id: of, fulfiller, dataset_id } => {
            assert(after.commissions.contains_key(id));
        },
        Request::Resolve { id: of, award, fulfiller, dataset_id } => {
            assert(after.commissions.contains_key(id));
        },
        _ => {},
    }
}

/// Whether `who` is there and signs.
pub open spec fn signed_by(effects: Seq<EffectModel>, who: Option<Seq<char>>) -> bool {
    who is Some && effects.len() > 0 && effects[0] == EffectModel::Authorize(who->0)
}

/// The moves in the life of a commission. An open one is fulfilled by the
/// admin, at once or with the last milestone; cancelled by the commissioner, or
/// by anyone once the deadline is over; or disputed by the commissioner, while
/// nothing is released. A disputed one is closed by the arbiter. Whoever moves
/// it signs.
pub open spec fn legal_move(
    s: DataCommissionModel,
    ctx: ContextModel,
    request: Request,
    id: Seq<char>,
) -> bool {
    let outcome = step(s, ctx, request);
    let before = s.commissions[id];
    let after = outcome.state.commissions[id];
    match (before.state, after.state) {
        (CommissionState::Open, CommissionState::Fulfilled) => {
            &&& request is Fulfil || request is Release && all_released(after.milestones)
            &&& signed_by(outcome.effects, s.governance.admin)
        },
        (CommissionState::Open, CommissionState::Cancelled) => {
            &&& request == Request::Cancel { id }
            &&& ctx.sequence <= before.deadline_ledger ==> signed_by(
                outcome.effects,
                Some(before.commissioner),
            )
        },
        (CommissionState::Open, CommissionState::Disputed) => {
            &&& request is RaiseDispute
            &&& none_released(before.milestones)
            &&& signed_by(outcome.effects, Some(before.commissioner))
        },
        (CommissionState::Disputed, CommissionState::Fulfilled) => {
            &&& request matches Request::Resolve { award, .. } && award
            &&& signed_by(outcome.effects, s.arbiter)
        },
        (CommissionState::Disputed, CommissionState::Cancelled) => {
            &&& request matches Request::Resolve { award, .. } && !award
            &&& signed_by(outcome.effects, s.arbiter)
        },
        _ => false,
    }
}

/// A commission moves only in these ways.
pub proof fn law_moves(s: DataCommissionModel, ctx: ContextModel, request: Request, id: Seq<char>)
    requires
        sound(s),
        s.commissions.contains_key(id),
        s.commissions[id].state != step(s, ctx, request).state.commissions[id].state,
    ensures
        legal_move(s, ctx, request, id),
{
    if let Request::Post { terms } = request {
        lemma_next_id_is_fresh(s);
    } else {
        lemma_moves(s, ctx, request, id);
    }
}

proof fn lemma_moves(s: DataCommissionModel, ctx: ContextModel, request: Request, id: Seq<char>)
    requires
        s.commissions.contains_key(id),
        !(request is Post),
        s.commissions[id].state != step(s, ctx, request).state.commissions[id].state,
    ensures
        legal_move(s, ctx, request, id),
{
    let outcome = step(s, ctx, request);
    match request {
        Request::Fulfil { id: of, .. } => {
            assert(s.fulfil_fault(ctx, of) is None && of == id);
            assert(signed_by(outcome.effects, s.governance.admin));
        },
        Request::Cancel { id: of } => {
            assert(s.cancel_fault(of) is None && of == id);
        },
        Request::Release { id: of, index } => {
            assert(s.release_fault(of, index) is None && of == id);
            assert(signed_by(outcome.effects, s.governance.admin));
        },
        Request::RaiseDispute { id: of, raised_by } => {
            assert(s.raise_fault(of, raised_by) is None && of == id);
        },
        Request::Resolve { id: of, .. } => {
            assert(s.resolve_fault(of) is None && of == id);
            assert(signed_by(outcome.effects, s.arbiter));
        },
        _ => {
            assert(outcome.state.commissions[id].state == s.commissions[id].state);
        },
    }
}

/// A disputed commission is frozen until the arbiter rules on it.
pub proof fn law_disputed_is_frozen(
    s: DataCommissionModel,
    ctx: ContextModel,
    request: Request,
    id: Seq<char>,
)
    requires
        sound(s),
        s.commissions.contains_key(id),
        s.commissions[id].state == CommissionState::Disputed,
        !(request is Resolve),
    ensures
        step(s, ctx, request).state.commissions[id] == s.commissions[id],
{
    if let Request::Post { terms } = request {
        lemma_next_id_is_fresh(s);
    }
}

/// Whether the milestones are the same but for having been released.
pub open spec fn same_tranches(a: Seq<Milestone>, b: Seq<Milestone>) -> bool {
    &&& a.len() == b.len()
    &&& forall|i: int|
        0 <= i < a.len() ==> (#[trigger] a[i]).amount == b[i].amount && a[i].description_hash
            == b[i].description_hash
}

/// Once there is a fulfiller, the milestones are settled: none comes, none
/// goes, and none changes its worth.
pub proof fn law_milestones_are_settled(
    s: DataCommissionModel,
    ctx: ContextModel,
    request: Request,
    id: Seq<char>,
)
    requires
        sound(s),
        s.commissions.contains_key(id),
        s.commissions[id].fulfiller is Some,
    ensures
        same_tranches(
            s.commissions[id].milestones,
            step(s, ctx, request).state.commissions[id].milestones,
        ),
{
    if let Request::Post { terms } = request {
        lemma_next_id_is_fresh(s);
    } else {
        lemma_milestones_are_settled(s, ctx, request, id);
    }
}

proof fn lemma_milestones_are_settled(
    s: DataCommissionModel,
    ctx: ContextModel,
    request: Request,
    id: Seq<char>,
)
    requires
        s.commissions.contains_key(id),
        s.commissions[id].fulfiller is Some,
        !(request is Post),
    ensures
        same_tranches(
            s.commissions[id].milestones,
            step(s, ctx, request).state.commissions[id].milestones,
        ),
{
    let before = s.commissions[id].milestones;
    let after = step(s, ctx, request).state.commissions[id].milestones;
    match request {
        Request::Release { id: of, index } => {
            if s.release_fault(of, index) is None && of == id {
                assert(after == before.update(
                    index as int,
                    Milestone { released: true, ..before[index as int] },
                ));
            } else {
                assert(after == before);
            }
        },
        Request::SetMilestones { id: of, milestones } => {
            if of == id {
                assert(s.set_milestones_fault(of, milestones) is Some);
            }
            assert(after == before);
        },
        _ => {
            assert(after == before);
        },
    }
}

/// A released milestone stays released, so it is paid at most once.
pub proof fn law_released_stays_released(
    s: DataCommissionModel,
    ctx: ContextModel,
    request: Request,
    id: Seq<char>,
    index: int,
)
    requires
        sound(s),
        s.commissions.contains_key(id),
        0 <= index < s.commissions[id].milestones.len(),
        s.commissions[id].milestones[index].released,
    ensures
        step(s, ctx, request).state.commissions[id].milestones.len()
            == s.commissions[id].milestones.len(),
        step(s, ctx, request).state.commissions[id].milestones[index]
            == s.commissions[id].milestones[index],
{
    assert(s.commissions[id].fulfiller is Some);
    if let Request::Post { terms } = request {
        lemma_next_id_is_fresh(s);
    }
}

/// Whatever is written is also kept for a full window.
pub proof fn law_writes_are_kept(
    s: DataCommissionModel,
    ctx: ContextModel,
    request: Request,
    id: Seq<char>,
)
    requires
        step(s, ctx, request).state.commissions.contains_key(id),
        !s.commissions.contains_key(id) || step(s, ctx, request).state.commissions[id]
            != s.commissions[id],
    ensures
        step(s, ctx, request).effects.contains(keep(KeyModel::Commission(id))),
{
    let effects = step(s, ctx, request).effects;
    let n = effects.len() as int;
    assert(effects[n - 2] == keep(KeyModel::Commission(id)));
}

// Escrow.

/// What the contract still holds of a commission's bounty.
pub open spec fn held(c: CommissionModel) -> int {
    if c.state == CommissionState::Fulfilled || c.state == CommissionState::Cancelled {
        0
    } else {
        c.remaining()
    }
}

/// What the contract still holds of a commission's bounty in `token`.
pub open spec fn held_in(token: Seq<char>) -> spec_fn(CommissionModel) -> int {
    |c: CommissionModel|
        if c.bounty_token == token {
            held(c)
        } else {
            0
        }
}

/// What the contract has to hold in `token` for all its commissions.
pub open spec fn escrow(s: DataCommissionModel, token: Seq<char>) -> int {
    sum_over(s.commissions, held_in(token))
}

/// What one effect moves into `account`, in `token`.
pub open spec fn inflow(effect: EffectModel, account: Seq<char>, token: Seq<char>) -> int {
    match effect {
        EffectModel::Transfer { token: moved, from, to, amount } => if moved != token {
            0
        } else {
            (if to == account {
                amount as int
            } else {
                0
            }) - (if from == account {
                amount as int
            } else {
                0
            })
        },
        _ => 0,
    }
}

/// What all effects together move into `account`, in `token`.
pub open spec fn net_inflow(
    effects: Seq<EffectModel>,
    account: Seq<char>,
    token: Seq<char>,
) -> int
    decreases effects.len(),
{
    if effects.len() == 0 {
        0
    } else {
        net_inflow(effects.drop_last(), account, token) + inflow(effects.last(), account, token)
    }
}

/// Whether no transfer goes from an account to itself.
pub open spec fn no_transfer_to_self(effects: Seq<EffectModel>) -> bool {
    forall|i: int|
        0 <= i < effects.len() ==> ((#[trigger] effects[i]) matches EffectModel::Transfer {
            from,
            to,
            ..
        } ==> from != to)
}

/// What the contract has to hold changes by exactly what is paid in and out: no
/// bounty is paid twice, and none stays behind.
pub proof fn law_escrow_is_conserved(
    s: DataCommissionModel,
    ctx: ContextModel,
    request: Request,
    token: Seq<char>,
)
    requires
        sound(s),
        no_transfer_to_self(step(s, ctx, request).effects),
    ensures
        escrow(step(s, ctx, request).state, token) == escrow(s, token) + net_inflow(
            step(s, ctx, request).effects,
            ctx.contract,
            token,
        ),
{
    match request {
        Request::Post { terms } => lemma_escrow_post(s, ctx, terms, token),
        Request::Fulfil { id, fulfiller, dataset_id } => lemma_escrow_fulfil(
            s,
            ctx,
            request,
            id,
            token,
        ),
        Request::Cancel { id } => lemma_escrow_cancel(s, ctx, id, token),
        Request::Release { id, index } => lemma_escrow_release(s, ctx, id, index, token),
        Request::Resolve { id, award, fulfiller, dataset_id } => lemma_escrow_resolve(
            s,
            ctx,
            request,
            id,
            token,
        ),
        Request::SetMilestones { id, milestones } => lemma_escrow_milestones(
            s,
            ctx,
            id,
            milestones,
            token,
        ),
        Request::RaiseDispute { id, raised_by } => lemma_escrow_raise(
            s,
            ctx,
            id,
            raised_by,
            token,
        ),
        _ => {
            lemma_no_transfer(step(s, ctx, request).effects, ctx.contract, token);
        },
    }
}

proof fn lemma_escrow_post(
    s: DataCommissionModel,
    ctx: ContextModel,
    terms: Terms,
    token: Seq<char>,
)
    requires
        sound(s),
        no_transfer_to_self(step(s, ctx, Request::Post { terms }).effects),
    ensures
        escrow(step(s, ctx, Request::Post { terms }).state, token) == escrow(s, token) + net_inflow(
            step(s, ctx, Request::Post { terms }).effects,
            ctx.contract,
            token,
        ),
{
    let effects = step(s, ctx, Request::Post { terms }).effects;
    let after = step(s, ctx, Request::Post { terms }).state;
    if s.post_fault(ctx, terms) is None {
        let id = commission_id((s.count + 1) as nat);
        lemma_next_id_is_fresh(s);
        lemma_sum_insert(s.commissions, held_in(token), id, s.posted(terms));
        assert(effects[1] is Transfer);
        lemma_transfer_among(effects, 1, ctx.contract, token);
    } else {
        lemma_no_transfer(effects, ctx.contract, token);
    }
}

proof fn lemma_escrow_fulfil(
    s: DataCommissionModel,
    ctx: ContextModel,
    request: Request,
    id: Seq<char>,
    token: Seq<char>,
)
    requires
        sound(s),
        no_transfer_to_self(step(s, ctx, request).effects),
        request matches Request::Fulfil { id: of, .. } && of == id,
    ensures
        escrow(step(s, ctx, request).state, token) == escrow(s, token) + net_inflow(
            step(s, ctx, request).effects,
            ctx.contract,
            token,
        ),
{
    let effects = step(s, ctx, request).effects;
    let after = step(s, ctx, request).state;
    if s.fulfil_fault(ctx, id) is None {
        lemma_sum_insert(s.commissions, held_in(token), id, after.commissions[id]);
        if s.commissions[id].milestones.len() == 0 {
            lemma_transfer_among(effects, 1, ctx.contract, token);
        } else {
            lemma_no_transfer(effects, ctx.contract, token);
        }
    } else {
        lemma_no_transfer(effects, ctx.contract, token);
    }
}

proof fn lemma_escrow_cancel(
    s: DataCommissionModel,
    ctx: ContextModel,
    id: Seq<char>,
    token: Seq<char>,
)
    requires
        sound(s),
        no_transfer_to_self(step(s, ctx, Request::Cancel { id }).effects),
    ensures
        escrow(step(s, ctx, Request::Cancel { id }).state, token) == escrow(s, token) + net_inflow(
            step(s, ctx, Request::Cancel { id }).effects,
            ctx.contract,
            token,
        ),
{
    let effects = step(s, ctx, Request::Cancel { id }).effects;
    let after = step(s, ctx, Request::Cancel { id }).state;
    if s.cancel_fault(id) is None {
        let c = s.commissions[id];
        lemma_sum_insert(s.commissions, held_in(token), id, after.commissions[id]);
        lemma_released_bounded(c.milestones);
        if c.remaining() > 0 {
            let at: int = if ctx.sequence <= c.deadline_ledger {
                1
            } else {
                0
            };
            lemma_transfer_among(effects, at, ctx.contract, token);
        } else {
            lemma_no_transfer(effects, ctx.contract, token);
        }
    } else {
        lemma_no_transfer(effects, ctx.contract, token);
    }
}

proof fn lemma_escrow_release(
    s: DataCommissionModel,
    ctx: ContextModel,
    id: Seq<char>,
    index: u32,
    token: Seq<char>,
)
    requires
        sound(s),
        no_transfer_to_self(step(s, ctx, Request::Release { id, index }).effects),
    ensures
        escrow(step(s, ctx, Request::Release { id, index }).state, token) == escrow(s, token) + net_inflow(
            step(s, ctx, Request::Release { id, index }).effects,
            ctx.contract,
            token,
        ),
{
    let effects = step(s, ctx, Request::Release { id, index }).effects;
    let after = step(s, ctx, Request::Release { id, index }).state;
    if s.release_fault(id, index) is None {
        let c = s.commissions[id];
        let m = Milestone { released: true, ..c.milestones[index as int] };
        lemma_sum_insert(s.commissions, held_in(token), id, after.commissions[id]);
        lemma_released_update(c.milestones, index as int, m);
        lemma_total_update(c.milestones, index as int, m);
        if all_released(after.commissions[id].milestones) {
            lemma_all_released(after.commissions[id].milestones);
        }
        lemma_transfer_among(effects, 1, ctx.contract, token);
    } else {
        lemma_no_transfer(effects, ctx.contract, token);
    }
}

proof fn lemma_escrow_resolve(
    s: DataCommissionModel,
    ctx: ContextModel,
    request: Request,
    id: Seq<char>,
    token: Seq<char>,
)
    requires
        sound(s),
        no_transfer_to_self(step(s, ctx, request).effects),
        request matches Request::Resolve { id: of, .. } && of == id,
    ensures
        escrow(step(s, ctx, request).state, token) == escrow(s, token) + net_inflow(
            step(s, ctx, request).effects,
            ctx.contract,
            token,
        ),
{
    let effects = step(s, ctx, request).effects;
    let after = step(s, ctx, request).state;
    if s.resolve_fault(id) is None {
        lemma_none_released(s.commissions[id].milestones);
        lemma_sum_insert(s.commissions, held_in(token), id, after.commissions[id]);
        lemma_transfer_among(effects, 1, ctx.contract, token);
    } else {
        lemma_no_transfer(effects, ctx.contract, token);
    }
}

proof fn lemma_escrow_milestones(
    s: DataCommissionModel,
    ctx: ContextModel,
    id: Seq<char>,
    milestones: Seq<Milestone>,
    token: Seq<char>,
)
    requires
        sound(s),
        no_transfer_to_self(step(s, ctx, Request::SetMilestones { id, milestones }).effects),
    ensures
        escrow(step(s, ctx, Request::SetMilestones { id, milestones }).state, token) == escrow(s, token) + net_inflow(
            step(s, ctx, Request::SetMilestones { id, milestones }).effects,
            ctx.contract,
            token,
        ),
{
    let effects = step(s, ctx, Request::SetMilestones { id, milestones }).effects;
    let after = step(s, ctx, Request::SetMilestones { id, milestones }).state;
    if s.set_milestones_fault(id, milestones) is None {
        lemma_milestones_fit(milestones, s.commissions[id].bounty_amount as int, 0);
        lemma_none_released(milestones);
        lemma_none_released(s.commissions[id].milestones);
        lemma_sum_insert(s.commissions, held_in(token), id, after.commissions[id]);
    }
    lemma_no_transfer(effects, ctx.contract, token);
}

proof fn lemma_escrow_raise(
    s: DataCommissionModel,
    ctx: ContextModel,
    id: Seq<char>,
    raised_by: Seq<char>,
    token: Seq<char>,
)
    requires
        sound(s),
        no_transfer_to_self(step(s, ctx, Request::RaiseDispute { id, raised_by }).effects),
    ensures
        escrow(step(s, ctx, Request::RaiseDispute { id, raised_by }).state, token) == escrow(s, token) + net_inflow(
            step(s, ctx, Request::RaiseDispute { id, raised_by }).effects,
            ctx.contract,
            token,
        ),
{
    let effects = step(s, ctx, Request::RaiseDispute { id, raised_by }).effects;
    let after = step(s, ctx, Request::RaiseDispute { id, raised_by }).state;
    if s.raise_fault(id, raised_by) is None {
        lemma_sum_insert(s.commissions, held_in(token), id, after.commissions[id]);
    }
    lemma_no_transfer(effects, ctx.contract, token);
}

proof fn lemma_no_transfer(effects: Seq<EffectModel>, account: Seq<char>, token: Seq<char>)
    requires
        forall|i: int| 0 <= i < effects.len() ==> !((#[trigger] effects[i]) is Transfer),
    ensures
        net_inflow(effects, account, token) == 0,
    decreases effects.len(),
{
    if effects.len() > 0 {
        assert(!(effects[effects.len() - 1] is Transfer));
        assert forall|i: int| 0 <= i < effects.drop_last().len() implies !((
        #[trigger] effects.drop_last()[i]) is Transfer) by {
            assert(effects.drop_last()[i] == effects[i]);
        }
        lemma_no_transfer(effects.drop_last(), account, token);
    }
}

proof fn lemma_transfer_among(
    effects: Seq<EffectModel>,
    at: int,
    account: Seq<char>,
    token: Seq<char>,
)
    requires
        0 <= at < effects.len(),
        forall|i: int|
            0 <= i < effects.len() && i != at ==> !((#[trigger] effects[i]) is Transfer),
    ensures
        net_inflow(effects, account, token) == inflow(effects[at], account, token),
    decreases effects.len(),
{
    let short = effects.drop_last();
    assert forall|i: int| 0 <= i < short.len() implies short[i] == effects[i] by {}
    if at == effects.len() - 1 {
        lemma_no_transfer(short, account, token);
    } else {
        assert(!(effects[effects.len() - 1] is Transfer));
        lemma_transfer_among(short, at, account, token);
    }
}

proof fn lemma_released_bounded(milestones: Seq<Milestone>)
    requires
        forall|i: int| 0 <= i < milestones.len() ==> (#[trigger] milestones[i]).amount > 0,
    ensures
        0 <= released_total(milestones) <= total(milestones),
    decreases milestones.len(),
{
    if milestones.len() > 0 {
        let short = milestones.drop_last();
        assert forall|i: int| 0 <= i < short.len() implies (#[trigger] short[i]).amount > 0 by {
            assert(short[i] == milestones[i]);
        }
        assert(milestones[milestones.len() - 1].amount > 0);
        lemma_released_bounded(short);
    }
}

proof fn lemma_released_update(milestones: Seq<Milestone>, at: int, m: Milestone)
    requires
        0 <= at < milestones.len(),
        !milestones[at].released,
        m.released,
        m.amount == milestones[at].amount,
    ensures
        released_total(milestones.update(at, m)) == released_total(milestones) + m.amount,
    decreases milestones.len(),
{
    let after = milestones.update(at, m);
    if at == milestones.len() - 1 {
        assert(after.drop_last() =~= milestones.drop_last());
    } else {
        assert(after.drop_last() =~= milestones.drop_last().update(at, m));
        lemma_released_update(milestones.drop_last(), at, m);
    }
}

proof fn lemma_all_released(milestones: Seq<Milestone>)
    requires
        all_released(milestones),
    ensures
        released_total(milestones) == total(milestones),
    decreases milestones.len(),
{
    if milestones.len() > 0 {
        let short = milestones.drop_last();
        assert forall|i: int| 0 <= i < short.len() implies (#[trigger] short[i]).released by {
            assert(short[i] == milestones[i]);
        }
        assert(milestones[milestones.len() - 1].released);
        lemma_all_released(short);
    }
}

proof fn lemma_none_released(milestones: Seq<Milestone>)
    requires
        none_released(milestones),
    ensures
        released_total(milestones) == 0,
    decreases milestones.len(),
{
    if milestones.len() > 0 {
        let short = milestones.drop_last();
        assert forall|i: int| 0 <= i < short.len() implies !(#[trigger] short[i]).released by {
            assert(short[i] == milestones[i]);
        }
        assert(!milestones[milestones.len() - 1].released);
        lemma_none_released(short);
    }
}

} // verus!
