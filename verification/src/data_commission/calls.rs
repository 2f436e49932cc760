//! What each call to the commissions contract does, told by the call, by what
//! was stored before it, and by what it answers, stores and asks of the host.

use crate::data_commission::{commission_id, fit_for_new, lifted_answer, milestone_fault, released_total,
    running_total_fits, total, Commission, CommissionState, Counter, DataCommission,
    DataCommissionModel, Error, Milestone, Terms};
use crate::governance::{GovernanceError, GovernanceModel, GovernanceOutcome};
use crate::host::{keep, moves_nothing, moves_only, signed_by_nobody, signed_only_by, view_opt,
    ContextModel, EffectModel, KeyModel, ValueModel};
use crate::text::decimal;
use vstd::prelude::*;

verus! {

// Records.

/// A commission is seen field by field.
pub proof fn law_commission_view(x: Commission)
    ensures
        x@.id == x.id@,
        x@.commissioner == x.commissioner@,
        x@.language_code == x.language_code@,
        x@.description_hash == x.description_hash@,
        x@.bounty_token == x.bounty_token@,
        x@.bounty_amount == x.bounty_amount,
        x@.milestones == x.milestones@,
        x@.min_sample_count == x.min_sample_count,
        x@.min_duration_seconds == x.min_duration_seconds,
        x@.deadline_ledger == x.deadline_ledger,
        x@.state == x.state,
        x@.fulfiller == view_opt(x.fulfiller),
        x@.fulfilled_dataset_id == view_opt(x.fulfilled_dataset_id),
{
}

/// The contract is seen field by field.
pub proof fn law_contract_view(x: DataCommission)
    ensures
        x@.governance == x.governance@,
        x@.arbiter == view_opt(x.arbiter),
        x@.count == x.count,
        x@.language_counts == x.language_counts@,
        x@.commissions == x.commissions@,
{
}

/// A counter is seen as its number.
pub proof fn law_counter_view(x: Counter)
    ensures
        x@ == x.value,
{
}

/// A new contract has no commission, no arbiter and no admin.
pub proof fn law_new_contract()
    ensures
        DataCommissionModel::fresh().governance == GovernanceModel::fresh(),
        DataCommissionModel::fresh().arbiter is None,
        DataCommissionModel::fresh().count == 0,
        forall|id: Seq<char>| !#[trigger] DataCommissionModel::fresh().commissions.contains_key(id),
        forall|language: Seq<char>| !#[trigger]
            DataCommissionModel::fresh().language_counts.contains_key(language),
{
}

/// The number and the words of each error.
pub proof fn law_errors_are_told_apart(e: Error)
    ensures
        1 <= e.spec_code() <= 23,
        e.spec_code() == 1 <==> e == Error::AlreadyInitialized,
        e.spec_code() == 2 <==> e == Error::NotInitialized,
        e.spec_code() == 3 <==> e == Error::NoAdminProposalPending,
        e.spec_code() == 4 <==> e == Error::MetadataHashCannotBeZero,
        e.spec_code() == 5 <==> e == Error::BountyMustBePositive,
        e.spec_code() == 6 <==> e == Error::DeadlineMustBeInTheFuture,
        e.spec_code() == 7 <==> e == Error::CommissionNotFound,
        e.spec_code() == 8 <==> e == Error::CommissionNotOpen,
        e.spec_code() == 9 <==> e == Error::CommissionDeadlinePassed,
        e.spec_code() == 10 <==> e == Error::CommissionAlreadyFulfilled,
        e.spec_code() == 11 <==> e == Error::MustProvideAtLeastOneMilestone,
        e.spec_code() == 12 <==> e == Error::MilestoneAmountMustBePositive,
        e.spec_code() == 13 <==> e == Error::NewMilestonesCannotStartReleased,
        e.spec_code() == 14 <==> e == Error::MilestoneAmountsMustSumToBounty,
        e.spec_code() == 15 <==> e == Error::CommissionHasNoFulfillerYet,
        e.spec_code() == 16 <==> e == Error::MilestoneIndexOutOfRange,
        e.spec_code() == 17 <==> e == Error::MilestoneAlreadyReleased,
        e.spec_code() == 18 <==> e == Error::OnlyCommissionerCanRaiseDispute,
        e.spec_code() == 19 <==> e == Error::NoArbiterSet,
        e.spec_code() == 20 <==> e == Error::CommissionNotDisputed,
        e.spec_code() == 21 <==> e == Error::ContractPaused,
        e.spec_code() == 22 <==> e == Error::AlreadyPaused,
        e.spec_code() == 23 <==> e == Error::NotPaused,
        Error::AlreadyInitialized.spec_message() == "already initialized"@,
        Error::NotInitialized.spec_message() == "not initialized"@,
        Error::NoAdminProposalPending.spec_message() == "no admin proposal pending"@,
        Error::MetadataHashCannotBeZero.spec_message() == "metadata hash cannot be zero"@,
        Error::BountyMustBePositive.spec_message() == "bounty must be positive"@,
        Error::DeadlineMustBeInTheFuture.spec_message() == "deadline must be in the future"@,
        Error::CommissionNotFound.spec_message() == "commission not found"@,
        Error::CommissionNotOpen.spec_message() == "commission not open"@,
        Error::CommissionDeadlinePassed.spec_message() == "commission deadline passed"@,
        Error::CommissionAlreadyFulfilled.spec_message() == "commission already fulfilled"@,
        Error::MustProvideAtLeastOneMilestone.spec_message() == "must provide at least one milestone"@,
        Error::MilestoneAmountMustBePositive.spec_message() == "milestone amount must be positive"@,
        Error::NewMilestonesCannotStartReleased.spec_message() == "new milestones cannot start released"@,
        Error::MilestoneAmountsMustSumToBounty.spec_message() == "milestone amounts must sum to the bounty amount"@,
        Error::CommissionHasNoFulfillerYet.spec_message() == "commission has no fulfiller yet"@,
        Error::MilestoneIndexOutOfRange.spec_message() == "milestone index out of range"@,
        Error::MilestoneAlreadyReleased.spec_message() == "milestone already released"@,
        Error::OnlyCommissionerCanRaiseDispute.spec_message() == "only the commissioner can raise a dispute"@,
        Error::NoArbiterSet.spec_message() == "no arbiter set"@,
        Error::CommissionNotDisputed.spec_message() == "commission not disputed"@,
        Error::ContractPaused.spec_message() == "contract paused"@,
        Error::AlreadyPaused.spec_message() == "already paused"@,
        Error::NotPaused.spec_message() == "not paused"@,
{
}

/// What the admin's side answers is passed on: a refusal under its own name.
pub proof fn law_answers_are_passed_on(e: GovernanceError)
    ensures
        lifted_answer(Ok(())) == Ok::<(), Error>(()),
        lifted_answer(Err(e)) is Err,
        lifted_answer(Err(e)) == Err::<(), Error>(Error::AlreadyInitialized) <==> e
            == GovernanceError::AlreadyInitialized,
        lifted_answer(Err(e)) == Err::<(), Error>(Error::NotInitialized) <==> e
            == GovernanceError::NotInitialized,
        lifted_answer(Err(e)) == Err::<(), Error>(Error::NoAdminProposalPending) <==> e
            == GovernanceError::NoAdminProposalPending,
        lifted_answer(Err(e)) == Err::<(), Error>(Error::AlreadyPaused) <==> e
            == GovernanceError::AlreadyPaused,
        lifted_answer(Err(e)) == Err::<(), Error>(Error::NotPaused) <==> e
            == GovernanceError::NotPaused,
{
}

/// The admin's side changes who runs the contract and nothing else; only the
/// first initialization starts the count.
pub proof fn law_admin_side(s: DataCommissionModel, outcome: GovernanceOutcome, admin: Seq<char>)
    ensures
        s.governed(outcome).answer == lifted_answer(outcome.answer),
        s.governed(outcome).effects == outcome.effects,
        s.governed(outcome).state.governance == outcome.state,
        s.governed(outcome).state.arbiter == s.arbiter,
        s.governed(outcome).state.count == s.count,
        s.governed(outcome).state.language_counts == s.language_counts,
        s.governed(outcome).state.commissions == s.commissions,
        s.governance.admin is Some ==> s.initialize(admin).answer == Err::<(), Error>(
            Error::AlreadyInitialized,
        ) && s.initialize(admin).state == s && s.initialize(admin).effects.len() == 0,
        s.governance.admin is None ==> {
            &&& s.initialize(admin).answer is Ok
            &&& s.initialize(admin).effects == seq![EffectModel::Authorize(admin)]
            &&& s.initialize(admin).state.governance.admin == Some(admin)
            &&& s.initialize(admin).state.governance.proposed == s.governance.proposed
            &&& s.initialize(admin).state.governance.paused == s.governance.paused
            &&& s.initialize(admin).state.count == 0
            &&& s.initialize(admin).state.arbiter == s.arbiter
            &&& s.initialize(admin).state.language_counts == s.language_counts
            &&& s.initialize(admin).state.commissions == s.commissions
        },
{
}

// Sums.

/// Adds a milestone's amount.
pub open spec fn adding() -> spec_fn(int, Milestone) -> int {
    |sum: int, m: Milestone| sum + m.amount
}

/// Adds a milestone's amount where it has been released.
pub open spec fn adding_released() -> spec_fn(int, Milestone) -> int {
    |sum: int, m: Milestone|
        if m.released {
            sum + m.amount
        } else {
            sum
        }
}

/// The totals run over all milestones, and over the released ones.
pub proof fn law_totals(milestones: Seq<Milestone>)
    ensures
        total(milestones) == milestones.fold_left(0, adding()),
        released_total(milestones) == milestones.fold_left(0, adding_released()),
    decreases milestones.len(),
{
    if milestones.len() > 0 {
        law_totals(milestones.drop_last());
    }
}

/// Whether a commission's numbers are in order: it is worth something, and so
/// is each of its milestones, which together are worth as much.
pub proof fn law_order_of_a_commission(c: Commission)
    ensures
        c@.sound() <==> {
            &&& c.bounty_amount > 0
            &&& c.milestones@.len() > 0 ==> c.milestones@.fold_left(0, adding()) == c.bounty_amount
            &&& forall|i: int|
                0 <= i < c.milestones@.len() ==> (#[trigger] c.milestones@[i]).amount > 0
        },
        c@.remaining() == c.bounty_amount - c.milestones@.fold_left(0, adding_released()),
{
    law_totals(c.milestones@);
}

// Posting.

/// How many commissions are on record for a language.
pub open spec fn on_record(s: DataCommissionModel, language: Seq<char>) -> int {
    if s.language_counts.contains_key(language) {
        s.language_counts[language] as int
    } else {
        0
    }
}

/// A count of a language is what is on record, and there is room for one more
/// as long as both counters are not at their end.
pub proof fn law_counts(s: DataCommissionModel, language: Seq<char>)
    ensures
        s.language_count(language) == on_record(s, language),
        s.has_room(language) <==> s.count < u32::MAX && on_record(s, language) < u32::MAX,
{
}

/// A commission is posted where the contract is not frozen, the requirements
/// have a hash, the bounty is worth something and the deadline is ahead; the
/// first of these that is not so is what the caller is told.
pub proof fn law_when_a_commission_is_posted(
    s: DataCommissionModel,
    ctx: ContextModel,
    terms: Terms,
)
    ensures
        ({
            let answer = s.post(ctx, terms).answer;
            let blank = terms.description_hash.len() == 32 && forall|i: int|
                0 <= i < 32 ==> #[trigger] terms.description_hash[i] == 0;
            if s.governance.paused {
                answer == Err::<Seq<char>, Error>(Error::ContractPaused)
            } else if blank {
                answer == Err::<Seq<char>, Error>(Error::MetadataHashCannotBeZero)
            } else if terms.bounty_amount <= 0 {
                answer == Err::<Seq<char>, Error>(Error::BountyMustBePositive)
            } else if terms.deadline_ledger <= ctx.sequence {
                answer == Err::<Seq<char>, Error>(Error::DeadlineMustBeInTheFuture)
            } else {
                answer is Ok
            }
        }),
        s.post_fault(ctx, terms) is None <==> s.post(ctx, terms).answer is Ok,
        s.post(ctx, terms).answer is Err && s.governance.paused ==> s.post(
            ctx,
            terms,
        ).effects.len() == 0,
        s.post(ctx, terms).answer is Err && !s.governance.paused ==> s.post(ctx, terms).effects
            == seq![EffectModel::Authorize(terms.commissioner)],
        s.post(ctx, terms).answer is Err ==> s.post(ctx, terms).state == s,
{
    crate::host::law_zero_hash(terms.description_hash);
}

/// What is posted is stored on the terms that were asked for, open, without
/// milestones and without a fulfiller, under the next number; nothing else that
/// is stored changes but for the two counters.
pub proof fn law_posted_on_its_terms(s: DataCommissionModel, ctx: ContextModel, terms: Terms)
    requires
        s.post(ctx, terms).answer is Ok,
        s.count < u32::MAX,
        on_record(s, terms.language_code) < u32::MAX,
    ensures
        ({
            let outcome = s.post(ctx, terms);
            let id = outcome.answer->Ok_0;
            let after = outcome.state;
            let c = after.commissions[id];
            &&& id == "com_"@ + decimal((s.count + 1) as nat)
            &&& c.id == id
            &&& c.commissioner == terms.commissioner
            &&& c.language_code == terms.language_code
            &&& c.description_hash == terms.description_hash
            &&& c.bounty_token == terms.bounty_token
            &&& c.bounty_amount == terms.bounty_amount
            &&& c.milestones.len() == 0
            &&& c.min_sample_count == terms.min_sample_count
            &&& c.min_duration_seconds == terms.min_duration_seconds
            &&& c.deadline_ledger == terms.deadline_ledger
            &&& c.state == CommissionState::Open
            &&& c.fulfiller is None
            &&& c.fulfilled_dataset_id is None
            &&& after.commissions == s.commissions.insert(id, c)
            &&& after.count == s.count + 1
            &&& on_record(after, terms.language_code) == on_record(s, terms.language_code) + 1
            &&& forall|other: Seq<char>|
                other != terms.language_code ==> #[trigger] on_record(after, other) == on_record(
                    s,
                    other,
                )
            &&& after.arbiter == s.arbiter
            &&& after.governance == s.governance
        }),
{
}

/// Posting takes the commissioner's signature, moves the bounty from them to
/// the contract and nothing else, and is announced.
pub proof fn law_posting_fills_the_escrow(s: DataCommissionModel, ctx: ContextModel, terms: Terms)
    requires
        s.post(ctx, terms).answer is Ok,
    ensures
        ({
            let outcome = s.post(ctx, terms);
            let id = outcome.answer->Ok_0;
            &&& signed_only_by(outcome.effects, terms.commissioner)
            &&& moves_only(
                outcome.effects,
                terms.bounty_token,
                terms.commissioner,
                ctx.contract,
                terms.bounty_amount as int,
            )
            &&& outcome.effects.skip(2) == seq![
                keep(KeyModel::Commission(id)),
                EffectModel::Publish {
                    group: "comm"@,
                    name: "posted"@,
                    data: seq![
                        ValueModel::Text(id),
                        ValueModel::Text(terms.language_code),
                        ValueModel::I128(terms.bounty_amount),
                    ],
                },
            ]
        }),
{
    let effects = s.post(ctx, terms).effects;
    assert(effects[1] is Transfer);
}

// Who is paid.

/// The whole bounty goes to whoever the admin says has delivered, at once where
/// there are no milestones; where there are, nothing moves yet. The delivery is
/// written down either way.
pub proof fn law_fulfilment_pays_the_fulfiller(
    s: DataCommissionModel,
    ctx: ContextModel,
    id: Seq<char>,
    fulfiller: Seq<char>,
    dataset_id: Seq<char>,
)
    ensures
        ({
            let outcome = s.fulfil(ctx, id, fulfiller, dataset_id);
            let before = s.commissions[id];
            let after = outcome.state.commissions[id];
            &&& outcome.answer is Ok <==> {
                &&& !s.governance.paused
                &&& s.governance.admin is Some
                &&& s.commissions.contains_key(id)
                &&& before.state == CommissionState::Open
                &&& ctx.sequence <= before.deadline_ledger
            }
            &&& outcome.answer is Ok ==> {
                &&& signed_only_by(outcome.effects, s.governance.admin->0)
                &&& before.milestones.len() == 0 ==> moves_only(
                    outcome.effects,
                    before.bounty_token,
                    ctx.contract,
                    fulfiller,
                    before.bounty_amount as int,
                )
                &&& before.milestones.len() > 0 ==> moves_nothing(outcome.effects)
                &&& after.fulfiller == Some(fulfiller)
                &&& after.fulfilled_dataset_id == Some(dataset_id)
                &&& before.milestones.len() == 0 ==> after.state == CommissionState::Fulfilled
                &&& before.milestones.len() > 0 ==> after.state == CommissionState::Open
                &&& after.milestones == before.milestones
                &&& outcome.effects.skip(outcome.effects.len() - 2) == seq![
                    keep(KeyModel::Commission(id)),
                    EffectModel::Publish {
                        group: "comm"@,
                        name: "fulfilled"@,
                        data: seq![
                            ValueModel::Text(id),
                            ValueModel::Account(fulfiller),
                            ValueModel::Text(dataset_id),
                            ValueModel::I128(before.bounty_amount),
                        ],
                    },
                ]
                &&& outcome.effects.len() == (if before.milestones.len() == 0 {
                    4int
                } else {
                    3
                })
            }
        }),
{
    let outcome = s.fulfil(ctx, id, fulfiller, dataset_id);
    if outcome.answer is Ok && s.commissions[id].milestones.len() == 0 {
        assert(outcome.effects[1] is Transfer);
    }
}

/// A cancellation pays only the commissioner: what the released milestones have
/// left of the bounty, and nothing where they left nothing.
pub proof fn law_cancellation_refunds_the_commissioner(
    s: DataCommissionModel,
    ctx: ContextModel,
    id: Seq<char>,
)
    requires
        s.commissions.contains_key(id) ==> s.commissions[id].sound(),
    ensures
        ({
            let outcome = s.cancel(ctx, id);
            let before = s.commissions[id];
            let left = before.bounty_amount - before.milestones.fold_left(0, adding_released());
            let early = ctx.sequence <= before.deadline_ledger;
            &&& outcome.answer is Ok <==> {
                &&& !s.governance.paused
                &&& s.commissions.contains_key(id)
                &&& before.state == CommissionState::Open
            }
            &&& outcome.answer is Ok ==> {
                &&& 0 <= left
                &&& left > 0 ==> moves_only(
                    outcome.effects,
                    before.bounty_token,
                    ctx.contract,
                    before.commissioner,
                    left,
                )
                &&& left == 0 ==> moves_nothing(outcome.effects)
                &&& early ==> signed_only_by(outcome.effects, before.commissioner)
                &&& !early ==> signed_by_nobody(outcome.effects)
                &&& outcome.state.commissions[id].state == CommissionState::Cancelled
                &&& outcome.state.commissions[id].milestones == before.milestones
                &&& outcome.state.commissions[id].fulfiller == before.fulfiller
                &&& outcome.state.commissions[id].fulfilled_dataset_id
                    == before.fulfilled_dataset_id
                &&& outcome.effects.skip(outcome.effects.len() - 2) == seq![
                    keep(KeyModel::Commission(id)),
                    EffectModel::Publish {
                        group: "comm"@,
                        name: "cancelled"@,
                        data: seq![ValueModel::Text(id)],
                    },
                ]
                &&& outcome.effects.len() == 2 + (if early {
                    1int
                } else {
                    0
                }) + (if left > 0 {
                    1int
                } else {
                    0
                })
            }
        }),
{
    let outcome = s.cancel(ctx, id);
    let before = s.commissions[id];
    law_totals(before.milestones);
    if outcome.answer is Ok {
        lemma_released_within(before.milestones);
        let at: int = if ctx.sequence <= before.deadline_ledger {
            1
        } else {
            0
        };
        if before.remaining() > 0 {
            assert(outcome.effects[at] is Transfer);
        }
    }
}

proof fn lemma_released_within(milestones: Seq<Milestone>)
    requires
        forall|i: int| 0 <= i < milestones.len() ==> (#[trigger] milestones[i]).amount > 0,
    ensures
        0 <= released_total(milestones) <= total(milestones),
    decreases milestones.len(),
{
    if milestones.len() > 0 {
        let short = milestones.drop_last();
        assert forall|i: int| 0 <= i < short.len() implies (#[trigger] short[i]).amount > 0 by {
            assert(short[i] == milestones[i]);
        }
        assert(milestones[milestones.len() - 1].amount > 0);
        lemma_released_within(short);
    }
}

/// A release pays only the fulfiller on record: the amount of that milestone,
/// which is then released and no other is. The commission is fulfilled with the
/// last of them and not before.
pub proof fn law_release_pays_the_fulfiller(
    s: DataCommissionModel,
    ctx: ContextModel,
    id: Seq<char>,
    index: u32,
)
    ensures
        ({
            let outcome = s.release(ctx, id, index);
            let before = s.commissions[id];
            let after = outcome.state.commissions[id];
            let at = index as int;
            &&& outcome.answer is Ok <==> {
                &&& !s.governance.paused
                &&& s.governance.admin is Some
                &&& s.commissions.contains_key(id)
                &&& before.state == CommissionState::Open
                &&& before.fulfiller is Some
                &&& index < before.milestones.len()
                &&& !before.milestones[at].released
            }
            &&& outcome.answer is Ok ==> {
                &&& signed_only_by(outcome.effects, s.governance.admin->0)
                &&& moves_only(
                    outcome.effects,
                    before.bounty_token,
                    ctx.contract,
                    before.fulfiller->0,
                    before.milestones[at].amount as int,
                )
                &&& after.milestones.len() == before.milestones.len()
                &&& after.milestones[at].released
                &&& after.milestones[at].amount == before.milestones[at].amount
                &&& after.milestones[at].description_hash == before.milestones[at].description_hash
                &&& forall|i: int|
                    0 <= i < before.milestones.len() && i != at ==> #[trigger] after.milestones[i]
                        == before.milestones[i]
                &&& after.fulfiller == before.fulfiller
                &&& after.fulfilled_dataset_id == before.fulfilled_dataset_id
                &&& after.state == CommissionState::Fulfilled || after.state
                    == CommissionState::Open
                &&& after.state == CommissionState::Fulfilled <==> forall|i: int|
                    0 <= i < before.milestones.len() && i != at ==> (
                    #[trigger] before.milestones[i]).released
                &&& outcome.effects.skip(2) == seq![
                    keep(KeyModel::Commission(id)),
                    EffectModel::Publish {
                        group: "comm"@,
                        name: "mrelease"@,
                        data: seq![
                            ValueModel::Text(id),
                            ValueModel::U32(index),
                            ValueModel::I128(before.milestones[at].amount),
                        ],
                    },
                ]
            }
        }),
{
    let outcome = s.release(ctx, id, index);
    let before = s.commissions[id];
    let after = outcome.state.commissions[id];
    if outcome.answer is Ok {
        assert(outcome.effects[1] is Transfer);
        if after.state == CommissionState::Fulfilled {
            assert forall|i: int|
                0 <= i < before.milestones.len() && i != index implies (
            #[trigger] before.milestones[i]).released by {
                assert(after.milestones[i].released);
            }
        }
        if forall|i: int|
            0 <= i < before.milestones.len() && i != index ==> (
            #[trigger] before.milestones[i]).released {
            assert forall|i: int| 0 <= i < after.milestones.len() implies (
            #[trigger] after.milestones[i]).released by {
                if i != index {
                    assert(before.milestones[i].released);
                }
            }
        }
    }
}

/// A ruling pays the whole bounty to one party: to the one the arbiter names,
/// where it awards the bounty, and back to the commissioner where it does not,
/// whoever was to be paid before.
pub proof fn law_ruling_pays_whom_it_favours(
    s: DataCommissionModel,
    ctx: ContextModel,
    id: Seq<char>,
    award: bool,
    fulfiller: Seq<char>,
    dataset_id: Seq<char>,
)
    ensures
        ({
            let outcome = s.resolve(ctx, id, award, fulfiller, dataset_id);
            let before = s.commissions[id];
            let after = outcome.state.commissions[id];
            &&& outcome.answer is Ok <==> {
                &&& !s.governance.paused
                &&& s.arbiter is Some
                &&& s.commissions.contains_key(id)
                &&& before.state == CommissionState::Disputed
            }
            &&& outcome.answer is Ok ==> {
                &&& signed_only_by(outcome.effects, s.arbiter->0)
                &&& award ==> {
                    &&& moves_only(
                        outcome.effects,
                        before.bounty_token,
                        ctx.contract,
                        fulfiller,
                        before.bounty_amount as int,
                    )
                    &&& after.state == CommissionState::Fulfilled
                    &&& after.fulfiller == Some(fulfiller)
                    &&& after.fulfilled_dataset_id == Some(dataset_id)
                }
                &&& !award ==> {
                    &&& moves_only(
                        outcome.effects,
                        before.bounty_token,
                        ctx.contract,
                        before.commissioner,
                        before.bounty_amount as int,
                    )
                    &&& after.state == CommissionState::Cancelled
                    &&& after.fulfiller == before.fulfiller
                    &&& after.fulfilled_dataset_id == before.fulfilled_dataset_id
                }
                &&& after.milestones == before.milestones
                &&& outcome.effects.skip(2) == seq![
                    keep(KeyModel::Commission(id)),
                    EffectModel::Publish {
                        group: "comm"@,
                        name: "resolved"@,
                        data: seq![ValueModel::Text(id), ValueModel::Flag(award)],
                    },
                ]
            }
        }),
{
    let outcome = s.resolve(ctx, id, award, fulfiller, dataset_id);
    if outcome.answer is Ok {
        assert(outcome.effects[1] is Transfer);
    }
}

// What moves no money.

/// The first milestone that is worth nothing, or comes released, is what is
/// wrong with a set of them; where there is none, a total other than the bounty
/// is.
pub proof fn law_first_fault_counts(milestones: Seq<Milestone>, bounty: int, at: int)
    requires
        0 <= at <= milestones.len(),
        forall|i: int|
            0 <= i < at ==> (#[trigger] milestones[i]).amount > 0 && !milestones[i].released,
    ensures
        ({
            let fault = milestone_fault(milestones, bounty, 0);
            if at < milestones.len() {
                &&& milestones[at].amount <= 0 ==> fault == Some(
                    Error::MilestoneAmountMustBePositive,
                )
                &&& milestones[at].amount > 0 && milestones[at].released ==> fault == Some(
                    Error::NewMilestonesCannotStartReleased,
                )
            } else {
                &&& milestones.fold_left(0, adding()) != bounty ==> fault == Some(
                    Error::MilestoneAmountsMustSumToBounty,
                )
                &&& milestones.fold_left(0, adding()) == bounty ==> fault is None
            }
        }),
{
    law_totals(milestones);
    lemma_fault_from(milestones, bounty, 0, at);
}

proof fn lemma_fault_from(milestones: Seq<Milestone>, bounty: int, from: int, at: int)
    requires
        0 <= from <= at <= milestones.len(),
        forall|i: int|
            0 <= i < at ==> (#[trigger] milestones[i]).amount > 0 && !milestones[i].released,
    ensures
        milestone_fault(milestones, bounty, from) == milestone_fault(milestones, bounty, at),
    decreases at - from,
{
    if from < at {
        assert(milestones[from].amount > 0);
        lemma_fault_from(milestones, bounty, from + 1, at);
    }
}

/// Whether the first `n` milestones could all be set: each is worth something
/// and none is released.
pub open spec fn settable(milestones: Seq<Milestone>, n: int) -> bool {
    forall|i: int| 0 <= i < n ==> (#[trigger] milestones[i]).amount > 0 && !milestones[i].released
}

/// Milestones are looked at whenever their running total, up to the first that
/// cannot be set, stays within bounds.
pub proof fn law_milestones_can_be_added(milestones: Seq<Milestone>)
    ensures
        running_total_fits(milestones) <==> forall|n: int|
            0 <= n <= milestones.len() && #[trigger] settable(milestones, n) ==> milestones.take(
                n,
            ).fold_left(0, adding()) <= i128::MAX,
{
    assert forall|n: int| 0 <= n <= milestones.len() implies total(#[trigger] milestones.take(n))
        == milestones.take(n).fold_left(0, adding()) by {
        law_totals(milestones.take(n));
    }
    assert forall|n: int| 0 <= n <= milestones.len() implies (#[trigger] settable(milestones, n)
        <==> forall|i: int| 0 <= i < n ==> fit_for_new(#[trigger] milestones[i])) by {
        if settable(milestones, n) {
            assert forall|i: int| 0 <= i < n implies fit_for_new(#[trigger] milestones[i]) by {}
        }
        if forall|i: int| 0 <= i < n ==> fit_for_new(#[trigger] milestones[i]) {
            assert forall|i: int| 0 <= i < n implies (#[trigger] milestones[i]).amount > 0
                && !milestones[i].released by {
                assert(fit_for_new(milestones[i]));
            }
        }
    }
    if running_total_fits(milestones) {
        assert forall|n: int|
            0 <= n <= milestones.len() && #[trigger] settable(
                milestones,
                n,
            ) implies milestones.take(n).fold_left(0, adding()) <= i128::MAX by {
            assert(total(milestones.take(n)) <= i128::MAX);
        }
    }
    if forall|n: int|
        0 <= n <= milestones.len() && #[trigger] settable(milestones, n) ==> milestones.take(
            n,
        ).fold_left(0, adding()) <= i128::MAX {
        assert forall|n: int|
            0 <= n <= milestones.len() && (forall|i: int|
                0 <= i < n ==> fit_for_new(#[trigger] milestones[i])) implies total(
            #[trigger] milestones.take(n),
        ) <= i128::MAX by {
            assert(settable(milestones, n));
        }
    }
}

/// New milestones are taken as they are given, while a commission is open and
/// nobody is to be paid yet, from the commissioner, who signs; they have to be
/// some and divide the bounty.
pub proof fn law_milestones_are_set_as_given(
    s: DataCommissionModel,
    id: Seq<char>,
    milestones: Seq<Milestone>,
)
    ensures
        ({
            let outcome = s.set_milestones(id, milestones);
            let before = s.commissions[id];
            let after = outcome.state.commissions[id];
            let fault = milestone_fault(milestones, before.bounty_amount as int, 0);
            &&& s.milestones_closed(id) is None <==> !s.governance.paused
                && s.commissions.contains_key(id) && before.state == CommissionState::Open
                && before.fulfiller is None
            &&& if s.governance.paused {
                outcome.answer == Err::<(), Error>(Error::ContractPaused)
            } else if !s.commissions.contains_key(id) {
                outcome.answer == Err::<(), Error>(Error::CommissionNotFound)
            } else if before.state != CommissionState::Open || before.fulfiller is Some {
                outcome.answer == Err::<(), Error>(Error::CommissionAlreadyFulfilled)
            } else if milestones.len() == 0 {
                outcome.answer == Err::<(), Error>(Error::MustProvideAtLeastOneMilestone)
            } else if fault is Some {
                outcome.answer == Err::<(), Error>(fault->0)
            } else {
                &&& outcome.answer is Ok
                &&& after.milestones == milestones
                &&& after.state == before.state
                &&& after.fulfiller == before.fulfiller
                &&& after.fulfilled_dataset_id == before.fulfilled_dataset_id
                &&& outcome.effects == seq![
                    EffectModel::Authorize(before.commissioner),
                    keep(KeyModel::Commission(id)),
                    EffectModel::Publish {
                        group: "comm"@,
                        name: "mstones"@,
                        data: seq![ValueModel::Text(id)],
                    },
                ]
            }
        }),
{
}

/// The admin, who signs, names the arbiter, which changes nothing else.
pub proof fn law_arbiter_is_named(s: DataCommissionModel, arbiter: Seq<char>)
    ensures
        ({
            let outcome = s.set_arbiter(arbiter);
            &&& s.governance.paused ==> outcome.answer == Err::<(), Error>(Error::ContractPaused)
            &&& !s.governance.paused && s.governance.admin is None ==> outcome.answer == Err::<
                (),
                Error,
            >(Error::NotInitialized)
            &&& outcome.answer is Err ==> outcome.state == s && outcome.effects.len() == 0
            &&& !s.governance.paused && s.governance.admin is Some ==> {
                &&& outcome.answer is Ok
                &&& outcome.state.arbiter == Some(arbiter)
                &&& outcome.state.governance == s.governance
                &&& outcome.state.count == s.count
                &&& outcome.state.language_counts == s.language_counts
                &&& outcome.state.commissions == s.commissions
                &&& outcome.effects == seq![
                    EffectModel::Authorize(s.governance.admin->0),
                    EffectModel::Publish {
                        group: "comm"@,
                        name: "arbiter"@,
                        data: seq![ValueModel::Account(arbiter)],
                    },
                ]
            }
        }),
{
}

/// The commissioner, and nobody else, disputes an open commission of which
/// nothing was released.
pub proof fn law_commissioner_disputes(s: DataCommissionModel, id: Seq<char>, raised_by: Seq<char>)
    ensures
        ({
            let outcome = s.raise_dispute(id, raised_by);
            let before = s.commissions[id];
            let after = outcome.state.commissions[id];
            let untouched = forall|i: int|
                0 <= i < before.milestones.len() ==> !(#[trigger] before.milestones[i]).released;
            &&& if s.governance.paused {
                outcome.answer == Err::<(), Error>(Error::ContractPaused) && outcome.effects.len()
                    == 0
            } else if !s.commissions.contains_key(id) {
                outcome.answer == Err::<(), Error>(Error::CommissionNotFound)
            } else if raised_by != before.commissioner {
                outcome.answer == Err::<(), Error>(Error::OnlyCommissionerCanRaiseDispute)
            } else if before.state != CommissionState::Open || !untouched {
                outcome.answer == Err::<(), Error>(Error::CommissionNotOpen)
            } else {
                &&& outcome.answer is Ok
                &&& after.state == CommissionState::Disputed
                &&& after.milestones == before.milestones
                &&& after.fulfiller == before.fulfiller
                &&& after.fulfilled_dataset_id == before.fulfilled_dataset_id
                &&& outcome.effects == seq![
                    EffectModel::Authorize(before.commissioner),
                    keep(KeyModel::Commission(id)),
                    EffectModel::Publish {
                        group: "comm"@,
                        name: "disputed"@,
                        data: seq![ValueModel::Text(id)],
                    },
                ]
            }
            &&& outcome.answer is Err && !s.governance.paused ==> outcome.effects == seq![
                EffectModel::Authorize(raised_by),
            ]
        }),
{
    let outcome = s.raise_dispute(id, raised_by);
    let before = s.commissions[id];
    if crate::data_commission::none_released(before.milestones) {
        assert forall|i: int| 0 <= i < before.milestones.len() implies !(
        #[trigger] before.milestones[i]).released by {}
    }
}

/// A renewal keeps a stored commission, asks nobody, and changes nothing.
pub proof fn law_renewal(s: DataCommissionModel, id: Seq<char>)
    ensures
        s.renew(id).state == s,
        s.commissions.contains_key(id) ==> s.renew(id).answer is Ok && s.renew(id).effects == seq![
            keep(KeyModel::Commission(id)),
        ],
        !s.commissions.contains_key(id) ==> s.renew(id).answer == Err::<(), Error>(
            Error::CommissionNotFound,
        ) && s.renew(id).effects.len() == 0,
{
}

// Refusals, and what a call leaves alone.

/// A delivery is refused for the first of these reasons that holds, and so are
/// a cancellation, a release and a ruling.
pub proof fn law_reasons_to_refuse(
    s: DataCommissionModel,
    ctx: ContextModel,
    id: Seq<char>,
    index: u32,
    award: bool,
    who: Seq<char>,
    dataset_id: Seq<char>,
)
    ensures
        ({
            let c = s.commissions[id];
            let fulfil = s.fulfil(ctx, id, who, dataset_id).answer;
            let cancel = s.cancel(ctx, id).answer;
            let release = s.release(ctx, id, index).answer;
            let ruling = s.resolve(ctx, id, award, who, dataset_id).answer;
            let stored = s.commissions.contains_key(id);
            &&& s.governance.paused ==> {
                &&& fulfil == Err::<(), Error>(Error::ContractPaused)
                &&& cancel == Err::<(), Error>(Error::ContractPaused)
                &&& release == Err::<(), Error>(Error::ContractPaused)
                &&& ruling == Err::<(), Error>(Error::ContractPaused)
            }
            &&& !s.governance.paused && s.governance.admin is None ==> {
                &&& fulfil == Err::<(), Error>(Error::NotInitialized)
                &&& release == Err::<(), Error>(Error::NotInitialized)
            }
            &&& !s.governance.paused && s.arbiter is None ==> ruling == Err::<(), Error>(
                Error::NoArbiterSet,
            )
            &&& !s.governance.paused && !stored ==> {
                &&& cancel == Err::<(), Error>(Error::CommissionNotFound)
                &&& s.governance.admin is Some ==> fulfil == Err::<(), Error>(
                    Error::CommissionNotFound,
                ) && release == Err::<(), Error>(Error::CommissionNotFound)
                &&& s.arbiter is Some ==> ruling == Err::<(), Error>(Error::CommissionNotFound)
            }
            &&& !s.governance.paused && stored && c.state != CommissionState::Open ==> {
                &&& cancel == Err::<(), Error>(Error::CommissionNotOpen)
                &&& s.governance.admin is Some ==> fulfil == Err::<(), Error>(
                    Error::CommissionNotOpen,
                ) && release == Err::<(), Error>(Error::CommissionNotOpen)
            }
            &&& !s.governance.paused && stored && s.arbiter is Some && c.state
                != CommissionState::Disputed ==> ruling == Err::<(), Error>(
                Error::CommissionNotDisputed,
            )
            &&& !s.governance.paused && stored && s.governance.admin is Some && c.state
                == CommissionState::Open ==> {
                &&& ctx.sequence > c.deadline_ledger ==> fulfil == Err::<(), Error>(
                    Error::CommissionDeadlinePassed,
                )
                &&& c.fulfiller is None ==> release == Err::<(), Error>(
                    Error::CommissionHasNoFulfillerYet,
                )
                &&& c.fulfiller is Some && index >= c.milestones.len() ==> release == Err::<
                    (),
                    Error,
                >(Error::MilestoneIndexOutOfRange)
                &&& c.fulfiller is Some && index < c.milestones.len()
                    && c.milestones[index as int].released ==> release == Err::<(), Error>(
                    Error::MilestoneAlreadyReleased,
                )
            }
        }),
        s.cancel_fault(id) is None <==> s.cancel(ctx, id).answer is Ok,
{
}

/// Who is asked to sign before a call is refused: the admin, the arbiter or the
/// commissioner whose say it needs, as far as there is one; nobody for a
/// cancellation, and nobody while the contract is frozen.
pub proof fn law_asked_before_a_refusal(
    s: DataCommissionModel,
    ctx: ContextModel,
    id: Seq<char>,
    index: u32,
    award: bool,
    who: Seq<char>,
    dataset_id: Seq<char>,
    milestones: Seq<Milestone>,
)
    ensures
        ({
            let fulfil = s.fulfil(ctx, id, who, dataset_id);
            let cancel = s.cancel(ctx, id);
            let release = s.release(ctx, id, index);
            let ruling = s.resolve(ctx, id, award, who, dataset_id);
            let set = s.set_milestones(id, milestones);
            let admin = if s.governance.paused || s.governance.admin is None {
                seq![]
            } else {
                seq![EffectModel::Authorize(s.governance.admin->0)]
            };
            let arbiter = if s.governance.paused || s.arbiter is None {
                seq![]
            } else {
                seq![EffectModel::Authorize(s.arbiter->0)]
            };
            let commissioner = if s.governance.paused || !s.commissions.contains_key(id) {
                seq![]
            } else {
                seq![EffectModel::Authorize(s.commissions[id].commissioner)]
            };
            &&& fulfil.answer is Err ==> fulfil.effects == admin && fulfil.state == s
            &&& release.answer is Err ==> release.effects == admin && release.state == s
            &&& ruling.answer is Err ==> ruling.effects == arbiter && ruling.state == s
            &&& set.answer is Err ==> set.effects == commissioner && set.state == s
            &&& cancel.answer is Err ==> cancel.effects.len() == 0 && cancel.state == s
        }),
{
}

/// Whether nothing of a contract changed but one commission, and of that not its
/// terms.
pub open spec fn only_moved(
    s: DataCommissionModel,
    after: DataCommissionModel,
    id: Seq<char>,
) -> bool {
    let was = s.commissions[id];
    let now = after.commissions[id];
    &&& after.governance == s.governance
    &&& after.arbiter == s.arbiter
    &&& after.count == s.count
    &&& after.language_counts == s.language_counts
    &&& after.commissions == s.commissions.insert(id, now)
    &&& now.id == was.id
    &&& now.commissioner == was.commissioner
    &&& now.language_code == was.language_code
    &&& now.description_hash == was.description_hash
    &&& now.bounty_token == was.bounty_token
    &&& now.bounty_amount == was.bounty_amount
    &&& now.min_sample_count == was.min_sample_count
    &&& now.min_duration_seconds == was.min_duration_seconds
    &&& now.deadline_ledger == was.deadline_ledger
}

/// A call about a commission touches no other, and none of its terms.
pub proof fn law_calls_stay_with_their_commission(
    s: DataCommissionModel,
    ctx: ContextModel,
    id: Seq<char>,
    index: u32,
    award: bool,
    who: Seq<char>,
    dataset_id: Seq<char>,
    milestones: Seq<Milestone>,
)
    ensures
        ({
            let fulfil = s.fulfil(ctx, id, who, dataset_id);
            let cancel = s.cancel(ctx, id);
            let release = s.release(ctx, id, index);
            let ruling = s.resolve(ctx, id, award, who, dataset_id);
            let dispute = s.raise_dispute(id, who);
            let set = s.set_milestones(id, milestones);
            &&& fulfil.answer is Ok ==> only_moved(s, fulfil.state, id)
            &&& cancel.answer is Ok ==> only_moved(s, cancel.state, id)
            &&& release.answer is Ok ==> only_moved(s, release.state, id)
            &&& ruling.answer is Ok ==> only_moved(s, ruling.state, id)
            &&& dispute.answer is Ok ==> only_moved(s, dispute.state, id)
            &&& dispute.answer is Err ==> dispute.state == s
            &&& set.answer is Ok ==> only_moved(s, set.state, id)
        }),
{
}

/// Commissions are numbered from one on, behind their own prefix.
pub proof fn law_ids(n: nat)
    ensures
        commission_id(n) == "com_"@ + decimal(n),
{
}

} // verus!
