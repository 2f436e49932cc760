//! What each call to the splitter does, told by the call, by what was stored
//! before it, and by what it answers, stores and asks of the host.

use crate::governance::{GovernanceError, GovernanceModel, GovernanceOutcome};
use crate::host::{keep, view_opt, ContextModel, EffectModel, KeyModel, ValueModel};
use crate::quality_oracle::{QualityModel, QualityTier};
use crate::royalty_splitter::payout::{adding_bps, divisible, fee, law_fee, law_totals,
    lemma_divisible_fits, payouts, share_views};
use crate::royalty_splitter::{lifted_answer, payout_name, transfers, Error,
    PayoutModel, PayoutRecord, Record, RecordModel, RoyaltySplitter, RoyaltySplitterModel, SplitConfig,
    SplitModel};
use crate::text::decimal;
use vstd::prelude::*;

verus! {

// Records.

/// A split is seen field by field.
pub proof fn law_split_view(x: SplitConfig)
    ensures
        x@.dataset_id == x.dataset_id@,
        x@.token == x.token@,
        x@.treasury == x.treasury@,
        x@.contributors == share_views(x.contributors@),
{
}

/// A receipt is seen field by field.
pub proof fn law_receipt_view(x: PayoutRecord)
    ensures
        x@.dataset_id == x.dataset_id@,
        x@.total_amount == x.total_amount,
        x@.ledger == x.ledger,
        x@.tx_count == x.tx_count,
        x@.quality_tier == x.quality_tier@,
{
}

/// The splitter is seen field by field.
pub proof fn law_splitter_view(x: RoyaltySplitter)
    ensures
        x@.governance == x.governance@,
        x@.oracle == view_opt(x.oracle),
        x@.count == x.count,
        x@.records == x.records@,
{
}

/// A record is seen as what it is.
pub proof fn law_record_view(config: SplitConfig, receipt: PayoutRecord)
    ensures
        Record::Split(config)@ == RecordModel::Split(config@),
        Record::Payout(receipt)@ == RecordModel::Payout(receipt@),
{
}

/// A new splitter has no record, no oracle and no admin.
pub proof fn law_new_splitter()
    ensures
        RoyaltySplitterModel::fresh().governance == GovernanceModel::fresh(),
        RoyaltySplitterModel::fresh().oracle is None,
        RoyaltySplitterModel::fresh().count == 0,
        forall|name: Seq<char>| !#[trigger]
            RoyaltySplitterModel::fresh().records.contains_key(name),
{
}

/// The number and the words of each error.
pub proof fn law_errors_are_told_apart(e: Error)
    ensures
        1 <= e.spec_code() <= 11,
        e.spec_code() == 1 <==> e == Error::AlreadyInitialized,
        e.spec_code() == 2 <==> e == Error::NotInitialized,
        e.spec_code() == 3 <==> e == Error::NoAdminProposalPending,
        e.spec_code() == 4 <==> e == Error::SharesMustSumTo10000,
        e.spec_code() == 5 <==> e == Error::SplitConfigNotFound,
        e.spec_code() == 6 <==> e == Error::AmountMustBePositive,
        e.spec_code() == 7 <==> e == Error::InsufficientContractBalance,
        e.spec_code() == 8 <==> e == Error::PayoutNotFound,
        e.spec_code() == 9 <==> e == Error::ContractPaused,
        e.spec_code() == 10 <==> e == Error::AlreadyPaused,
        e.spec_code() == 11 <==> e == Error::NotPaused,
        Error::AlreadyInitialized.spec_message() == "already initialized"@,
        Error::NotInitialized.spec_message() == "not initialized"@,
        Error::NoAdminProposalPending.spec_message() == "no admin proposal pending"@,
        Error::SharesMustSumTo10000.spec_message() == "shares must sum to 10000 bps"@,
        Error::SplitConfigNotFound.spec_message() == "split config not found"@,
        Error::AmountMustBePositive.spec_message() == "amount must be positive"@,
        Error::InsufficientContractBalance.spec_message() == "insufficient contract balance"@,
        Error::PayoutNotFound.spec_message() == "payout not found"@,
        Error::ContractPaused.spec_message() == "contract paused"@,
        Error::AlreadyPaused.spec_message() == "already paused"@,
        Error::NotPaused.spec_message() == "not paused"@,
{
}

/// What the admin's side answers is passed on: a refusal under its own name.
pub proof fn law_answers_are_passed_on(e: GovernanceError)
    ensures
        lifted_answer(Ok(())) == Ok::<(), Error>(()),
        lifted_answer(Err(e)) is Err,
        lifted_answer(Err(e)) == Err::<(), Error>(Error::AlreadyInitialized) <==> e
            == GovernanceError::AlreadyInitialized,
        lifted_answer(Err(e)) == Err::<(), Error>(Error::NotInitialized) <==> e
            == GovernanceError::NotInitialized,
        lifted_answer(Err(e)) == Err::<(), Error>(Error::NoAdminProposalPending) <==> e
            == GovernanceError::NoAdminProposalPending,
        lifted_answer(Err(e)) == Err::<(), Error>(Error::AlreadyPaused) <==> e
            == GovernanceError::AlreadyPaused,
        lifted_answer(Err(e)) == Err::<(), Error>(Error::NotPaused) <==> e
            == GovernanceError::NotPaused,
{
}

/// The admin's side changes who runs the splitter and nothing else; only the
/// first initialization starts the count, and keeps the contract.
pub proof fn law_admin_side(s: RoyaltySplitterModel, outcome: GovernanceOutcome, admin: Seq<char>)
    ensures
        s.governed(outcome).answer == lifted_answer(outcome.answer),
        s.governed(outcome).effects == outcome.effects,
        s.governed(outcome).state.governance == outcome.state,
        s.governed(outcome).state.oracle == s.oracle,
        s.governed(outcome).state.count == s.count,
        s.governed(outcome).state.records == s.records,
        s.governance.admin is Some ==> s.initialize(admin).answer == Err::<(), Error>(
            Error::AlreadyInitialized,
        ) && s.initialize(admin).state == s && s.initialize(admin).effects.len() == 0,
        s.governance.admin is None ==> {
            &&& s.initialize(admin).answer is Ok
            &&& s.initialize(admin).effects == seq![
                EffectModel::Authorize(admin),
                keep(KeyModel::Instance),
            ]
            &&& s.initialize(admin).state.governance.admin == Some(admin)
            &&& s.initialize(admin).state.governance.proposed == s.governance.proposed
            &&& s.initialize(admin).state.governance.paused == s.governance.paused
            &&& s.initialize(admin).state.count == 0
            &&& s.initialize(admin).state.oracle == s.oracle
            &&& s.initialize(admin).state.records == s.records
        },
{
}

// Splits.

/// The admin, who signs, registers a split whose shares add up to ten thousand,
/// and it is stored as given under its dataset's id; nothing else is touched.
pub proof fn law_split_is_stored_as_given(s: RoyaltySplitterModel, config: SplitModel)
    ensures
        ({
            let outcome = s.register(config);
            let after = outcome.state;
            &&& outcome.answer is Err ==> after == s
            &&& if s.governance.paused {
                outcome.answer == Err::<(), Error>(Error::ContractPaused) && outcome.effects.len()
                    == 0
            } else if s.governance.admin is None {
                outcome.answer == Err::<(), Error>(Error::NotInitialized) && outcome.effects.len()
                    == 0
            } else if config.contributors.fold_left(0, adding_bps()) != 10_000 {
                outcome.answer == Err::<(), Error>(Error::SharesMustSumTo10000) && outcome.effects
                    == seq![EffectModel::Authorize(s.governance.admin->0)]
            } else {
                &&& outcome.answer is Ok
                &&& after.records == s.records.insert(
                    config.dataset_id,
                    RecordModel::Split(config),
                )
                &&& after.count == s.count
                &&& after.oracle == s.oracle
                &&& after.governance == s.governance
                &&& outcome.effects == seq![
                    EffectModel::Authorize(s.governance.admin->0),
                    keep(KeyModel::Instance),
                    keep(KeyModel::Record(config.dataset_id)),
                ]
            }
        }),
{
    law_totals(seq![], config.contributors);
}

// Payouts.

/// A payout is made where the splitter is live and has an admin, there is a
/// split, the amount is positive and the balance covers it; the first of these
/// that is not so is what the caller is told, and then nothing changes.
pub proof fn law_when_a_payout_is_made(
    s: RoyaltySplitterModel,
    ctx: ContextModel,
    id: Seq<char>,
    amount: i128,
    balance: i128,
    reply: Option<QualityModel>,
)
    ensures
        ({
            let outcome = s.distribute(ctx, id, amount, balance, reply);
            let fit = !s.governance.paused && s.governance.admin is Some
                && s.records.contains_key(id) && amount > 0;
            &&& if s.governance.paused {
                outcome.answer == Err::<(), Error>(Error::ContractPaused)
            } else if s.governance.admin is None {
                outcome.answer == Err::<(), Error>(Error::NotInitialized)
            } else if !s.records.contains_key(id) {
                outcome.answer == Err::<(), Error>(Error::SplitConfigNotFound)
            } else if amount <= 0 {
                outcome.answer == Err::<(), Error>(Error::AmountMustBePositive)
            } else if balance < amount {
                outcome.answer == Err::<(), Error>(Error::InsufficientContractBalance)
            } else {
                outcome.answer is Ok
            }
            &&& outcome.answer is Err ==> outcome.state == s
            &&& outcome.answer is Err ==> outcome.effects == if s.governance.paused
                || s.governance.admin is None {
                seq![]
            } else {
                seq![EffectModel::Authorize(s.governance.admin->0)]
            }
            &&& s.unfit_for_payout(id, amount) is None <==> fit
            &&& s.distribute_fault(id, amount, balance) is None <==> fit && balance >= amount
        }),
        s.reads_a_split(id) <==> (!s.governance.paused && s.governance.admin is Some
            && s.records.contains_key(id) ==> s.records[id] is Split),
        s.records.contains_key(id) && s.records[id] is Split ==> s.records[id]
            == RecordModel::Split(s.split(id)),
{
}

/// The name that a receipt gives the quality of a dataset: that of the tier in
/// the oracle's reply, where there is an oracle and it replied.
pub open spec fn named_tier(s: RoyaltySplitterModel, reply: Option<QualityModel>) -> Seq<char> {
    if s.oracle is None || reply is None {
        "Unrated"@
    } else {
        match reply->0.tier {
            QualityTier::Platinum => "Platinum"@,
            QualityTier::Gold => "Gold"@,
            QualityTier::Silver => "Silver"@,
            QualityTier::Bronze => "Bronze"@,
            QualityTier::Unrated => "Unrated"@,
        }
    }
}

/// A payout leaves a receipt under the next number, with the dataset, the
/// amount and the ledger of the call and the name of the tier that the oracle
/// gave; it touches no other record.
pub proof fn law_receipt_says_what_was_paid(
    s: RoyaltySplitterModel,
    ctx: ContextModel,
    id: Seq<char>,
    amount: i128,
    balance: i128,
    reply: Option<QualityModel>,
)
    requires
        s.distribute(ctx, id, amount, balance, reply).answer is Ok,
        s.count < u32::MAX,
    ensures
        ({
            let after = s.distribute(ctx, id, amount, balance, reply).state;
            let n = (s.count + 1) as u32;
            let name = "pay_"@ + decimal(n as nat);
            let receipt = after.records[name]->Payout_0;
            &&& after.records.contains_key(name)
            &&& after.records[name] is Payout
            &&& receipt.dataset_id == id
            &&& receipt.total_amount == amount
            &&& receipt.ledger == ctx.sequence
            &&& receipt.tx_count == n
            &&& receipt.quality_tier == named_tier(s, reply)
            &&& after.payout(n) == Ok::<PayoutModel, Error>(receipt)
            &&& after.records == s.records.insert(name, RecordModel::Payout(receipt))
            &&& after.count == n
            &&& after.oracle == s.oracle
            &&& after.governance == s.governance
        }),
{
}

/// What a receipt number leads to.
pub proof fn law_receipt_is_found(s: RoyaltySplitterModel, n: u32)
    ensures
        ({
            let name = "pay_"@ + decimal(n as nat);
            &&& !s.records.contains_key(name) ==> s.payout(n) == Err::<PayoutModel, Error>(
                Error::PayoutNotFound,
            )
            &&& s.records.contains_key(name) && s.records[name] is Payout ==> s.payout(n) == Ok::<
                PayoutModel,
                Error,
            >(s.records[name]->Payout_0)
            &&& payout_name(n as nat) == name
        }),
{
}

/// The transfer of what a contributor is paid.
pub open spec fn share_transfers(
    config: SplitModel,
    contract: Seq<char>,
    paid: Seq<int>,
) -> Seq<EffectModel> {
    Seq::new(
        config.contributors.len(),
        |i: int|
            EffectModel::Transfer {
                token: config.token,
                from: contract,
                to: config.contributors[i].0,
                amount: paid[i] as i128,
            },
    )
}

/// Whether a transfer moves anything.
pub open spec fn moves_something() -> spec_fn(EffectModel) -> bool {
    |effect: EffectModel| effect matches EffectModel::Transfer { amount, .. } && amount > 0
}

proof fn lemma_transfers(config: SplitModel, contract: Seq<char>, paid: Seq<int>, upto: int)
    requires
        0 <= upto <= config.contributors.len(),
        paid.len() == config.contributors.len(),
        forall|i: int| 0 <= i < paid.len() ==> 0 <= #[trigger] paid[i] <= i128::MAX,
    ensures
        transfers(config, contract, paid, upto) == share_transfers(config, contract, paid).take(
            upto,
        ).filter(moves_something()),
    decreases upto,
{
    reveal(Seq::filter);
    let all = share_transfers(config, contract, paid);
    if upto > 0 {
        lemma_transfers(config, contract, paid, upto - 1);
        assert(all.take(upto).drop_last() =~= all.take(upto - 1));
        assert(all.take(upto).last() == all[upto - 1]);
        assert(0 <= paid[upto - 1] <= i128::MAX);
    } else {
        assert(all.take(0) =~= Seq::<EffectModel>::empty());
    }
}

/// A payout takes the admin's signature, then moves the fee, a twentieth of the
/// amount rounded down, to the treasury, then to each contributor in turn what
/// they get of the rest, but for those who get nothing; all from the contract
/// and in the split's token. Then it is announced, with the receipt's tier.
pub proof fn law_payout_pays_everyone_in_turn(
    s: RoyaltySplitterModel,
    ctx: ContextModel,
    id: Seq<char>,
    amount: i128,
    balance: i128,
    reply: Option<QualityModel>,
    treasury_fee: i128,
)
    requires
        s.distribute(ctx, id, amount, balance, reply).answer is Ok,
        s.records[id] is Split,
        divisible(s.records[id]->Split_0.contributors, amount as int),
        treasury_fee * 20 <= amount < (treasury_fee + 1) * 20,
    ensures
        ({
            let config = s.records[id]->Split_0;
            let paid = payouts(config.contributors, amount - treasury_fee);
            let name = "pay_"@ + decimal((s.count + 1) as nat);
            s.distribute(ctx, id, amount, balance, reply).effects == seq![
                EffectModel::Authorize(s.governance.admin->0),
                keep(KeyModel::Instance),
                EffectModel::Transfer {
                    token: config.token,
                    from: ctx.contract,
                    to: config.treasury,
                    amount: treasury_fee,
                },
            ] + share_transfers(config, ctx.contract, paid).filter(moves_something()) + seq![
                keep(KeyModel::Record(name)),
                EffectModel::Publish {
                    group: "royalty"@,
                    name: "paid"@,
                    data: seq![
                        ValueModel::Text(id),
                        ValueModel::I128(amount),
                        ValueModel::U32(ctx.sequence),
                        ValueModel::Text(named_tier(s, reply)),
                    ],
                },
            ]
        }),
{
    let config = s.records[id]->Split_0;
    law_fee(amount as int);
    assert(fee(amount as int) == treasury_fee);
    let paid = payouts(config.contributors, amount - treasury_fee);
    lemma_divisible_fits(config.contributors, amount, 0);
    assert forall|i: int| 0 <= i < paid.len() implies 0 <= #[trigger] paid[i] <= i128::MAX by {
        lemma_divisible_fits(config.contributors, amount, i);
    }
    let n = config.contributors.len() as int;
    let all = share_transfers(config, ctx.contract, paid);
    lemma_transfers(config, ctx.contract, paid, n);
    assert(all.take(n) =~= all);
    let shares = transfers(config, ctx.contract, paid, n);
    let fx = s.distribute(ctx, id, amount, balance, reply).effects;
    let front = seq![
        EffectModel::Authorize(s.governance.admin->0),
        keep(KeyModel::Instance),
        EffectModel::Transfer {
            token: config.token,
            from: ctx.contract,
            to: config.treasury,
            amount: treasury_fee,
        },
    ];
    assert(fx =~= front + shares + fx.skip(fx.len() - 2));
}

// The oracle and renewals.

/// The admin, who signs, names the oracle, which changes nothing else.
pub proof fn law_oracle_is_named(s: RoyaltySplitterModel, oracle: Seq<char>)
    ensures
        ({
            let outcome = s.set_oracle(oracle);
            &&& outcome.answer is Err ==> outcome.state == s && outcome.effects.len() == 0
            &&& s.governance.paused ==> outcome.answer == Err::<(), Error>(Error::ContractPaused)
            &&& !s.governance.paused && s.governance.admin is None ==> outcome.answer == Err::<
                (),
                Error,
            >(Error::NotInitialized)
            &&& !s.governance.paused && s.governance.admin is Some ==> {
                &&& outcome.answer is Ok
                &&& outcome.state.oracle == Some(oracle)
                &&& outcome.state.count == s.count
                &&& outcome.state.records == s.records
                &&& outcome.state.governance == s.governance
                &&& outcome.effects == seq![EffectModel::Authorize(s.governance.admin->0)]
            }
        }),
{
}

/// A renewal asks nobody and changes nothing: it keeps the contract, and a
/// split or a receipt that is stored.
pub proof fn law_renewals(s: RoyaltySplitterModel, id: Seq<char>, n: u32)
    ensures
        s.renew_split(id).state == s,
        s.renew_payout(n).state == s,
        !s.records.contains_key(id) ==> s.renew_split(id).answer == Err::<(), Error>(
            Error::SplitConfigNotFound,
        ) && s.renew_split(id).effects.len() == 0,
        s.records.contains_key(id) ==> s.renew_split(id).answer is Ok && s.renew_split(id).effects
            == seq![keep(KeyModel::Instance), keep(KeyModel::Record(id))],
        ({
            let name = "pay_"@ + decimal(n as nat);
            &&& !s.records.contains_key(name) ==> s.renew_payout(n).answer == Err::<(), Error>(
                Error::PayoutNotFound,
            ) && s.renew_payout(n).effects.len() == 0
            &&& s.records.contains_key(name) ==> s.renew_payout(n).answer is Ok && s.renew_payout(
                n,
            ).effects == seq![keep(KeyModel::Instance), keep(KeyModel::Record(name))]
        }),
{
}

} // verus!
