//! What holds of the splitter as a whole.
//!
//! A [`Request`] is any call that may change the splitter or ask something of
//! the host, and [`step`] is what comes of it. The laws speak of every request
//! in every sound state.

use crate::governance::GovernanceModel;
use crate::host::{keep, ContextModel, EffectModel, KeyModel};
use crate::quality_oracle::QualityModel;
use crate::royalty_splitter::payout::{added, divisible, fee, law_all_is_paid_out,
    law_dust_is_small, law_fee, law_largest, law_only_the_largest_gets_dust,
    law_whole_split_is_divisible, lemma_one_of_added, payouts, total_bps, TOTAL_BPS};
use crate::royalty_splitter::{all_transfers, payout_name, transfers, CallOutcome, Error, PayoutModel,
    RecordModel, RoyaltySplitterModel, SplitModel};
use crate::text::lemma_numbered_injective;
use vstd::prelude::*;

verus! {

/// A call to the splitter. A payout comes with the token balance and the
/// oracle's reply.
pub enum Request {
    Initialize { admin: Seq<char> },
    ProposeAdmin { successor: Seq<char> },
    AcceptAdmin,
    Pause,
    Unpause,
    Upgrade { hash: Seq<u8> },
    RegisterSplit { config: SplitModel },
    Distribute { id: Seq<char>, amount: i128, balance: i128, reply: Option<QualityModel> },
    SetOracle { oracle: Seq<char> },
    RenewSplit { id: Seq<char> },
    RenewPayout { n: u32 },
}

/// What comes of a request.
pub open spec fn step(s: RoyaltySplitterModel, ctx: ContextModel, request: Request) -> CallOutcome {
    match request {
        Request::Initialize { admin } => s.initialize(admin),
        Request::ProposeAdmin { successor } => s.governed(s.governance.propose(successor)),
        Request::AcceptAdmin => s.governed(s.governance.accept_proposal()),
        Request::Pause => s.governed(s.governance.pause(ctx)),
        Request::Unpause => s.governed(s.governance.unpause(ctx)),
        Request::Upgrade { hash } => s.governed(s.governance.upgrade(ctx, hash)),
        Request::RegisterSplit { config } => s.register(config),
        Request::Distribute { id, amount, balance, reply } => s.distribute(
            ctx,
            id,
            amount,
            balance,
            reply,
        ),
        Request::SetOracle { oracle } => s.set_oracle(oracle),
        Request::RenewSplit { id } => s.renew_split(id),
        Request::RenewPayout { n } => s.renew_payout(n),
    }
}

// The freeze and refusals.

/// The requests that a freeze stops.
pub open spec fn is_write(request: Request) -> bool {
    request is RegisterSplit || request is Distribute || request is SetOracle
}

/// A frozen contract refuses every write, changes nothing and asks nobody to
/// authorize anything.
pub proof fn law_frozen(s: RoyaltySplitterModel, ctx: ContextModel, request: Request)
    requires
        s.governance.paused,
        is_write(request),
    ensures
        step(s, ctx, request).answer == Err::<(), Error>(Error::ContractPaused),
        step(s, ctx, request).state == s,
        step(s, ctx, request).effects.len() == 0,
{
}

/// The state with the freeze set to `paused`.
pub open spec fn with_freeze(s: RoyaltySplitterModel, paused: bool) -> RoyaltySplitterModel {
    RoyaltySplitterModel { governance: GovernanceModel { paused, ..s.governance }, ..s }
}

/// Renewals, the admin handover, upgrades and an initialization go on in a
/// frozen contract as in a live one.
pub proof fn law_open_while_frozen(s: RoyaltySplitterModel, ctx: ContextModel, request: Request)
    requires
        s.governance.paused,
        request is Initialize || request is ProposeAdmin || request is AcceptAdmin
            || request is Upgrade
            || request is RenewSplit || request is RenewPayout,
    ensures
        ({
            let live = step(with_freeze(s, false), ctx, request);
            let frozen = step(s, ctx, request);
            &&& frozen.answer == live.answer
            &&& frozen.effects == live.effects
            &&& frozen.state == with_freeze(live.state, true)
        }),
{
}

/// A freeze hides nothing: all that can be read stays as it is.
pub proof fn law_reads_go_on(s: RoyaltySplitterModel, paused: bool)
    ensures
        with_freeze(s, paused).count == s.count,
        with_freeze(s, paused).records == s.records,
        with_freeze(s, paused).oracle == s.oracle,
        with_freeze(s, paused).governance.admin == s.governance.admin,
        with_freeze(s, paused).governance.proposed == s.governance.proposed,
{
}

/// A freeze that is lifted leaves the contract as it was.
pub proof fn law_freeze_round_trip(
    s: RoyaltySplitterModel,
    before: ContextModel,
    after: ContextModel,
)
    requires
        s.governance.admin is Some,
        !s.governance.paused,
    ensures
        ({
            let frozen = step(s, before, Request::Pause);
            let lifted = step(frozen.state, after, Request::Unpause);
            &&& frozen.answer is Ok
            &&& frozen.state.governance.paused
            &&& lifted.answer is Ok
            &&& lifted.state == s
        }),
{
}

/// Whether only authorizations are asked.
pub open spec fn only_authorizations(effects: Seq<EffectModel>) -> bool {
    forall|i: int| 0 <= i < effects.len() ==> (#[trigger] effects[i]) is Authorize
}

/// A refused request changes nothing, and asks for nothing but authorizations.
pub proof fn law_refusal_changes_nothing(
    s: RoyaltySplitterModel,
    ctx: ContextModel,
    request: Request,
)
    requires
        step(s, ctx, request).answer is Err,
    ensures
        step(s, ctx, request).state == s,
        only_authorizations(step(s, ctx, request).effects),
{
}

/// Whoever becomes the admin has authorized it.
pub proof fn law_new_admin_signed(s: RoyaltySplitterModel, ctx: ContextModel, request: Request)
    requires
        step(s, ctx, request).state.governance.admin != s.governance.admin,
    ensures
        step(s, ctx, request).state.governance.admin is Some,
        step(s, ctx, request).effects.len() > 0,
        step(s, ctx, request).effects[0] == EffectModel::Authorize(
            step(s, ctx, request).state.governance.admin->0,
        ),
{
}

// What every request keeps.

/// Whether `name` is the name of a receipt.
pub open spec fn names_a_receipt(name: Seq<char>) -> bool {
    exists|n: nat| name == #[trigger] payout_name(n)
}

/// Whether what is stored under `name` is in order, after `count` payouts.
pub open spec fn in_order(record: RecordModel, name: Seq<char>, count: u32) -> bool {
    match record {
        RecordModel::Split(config) => {
            &&& config.dataset_id == name
            &&& total_bps(config.contributors) == TOTAL_BPS
            &&& !names_a_receipt(name)
        },
        RecordModel::Payout(receipt) => {
            &&& 1 <= receipt.tx_count <= count
            &&& name == payout_name(receipt.tx_count as nat)
            &&& receipt.total_amount > 0
        },
    }
}

/// Whether `s` holds the receipt numbered `n`.
pub open spec fn has_receipt(s: RoyaltySplitterModel, n: nat) -> bool {
    s.records.contains_key(payout_name(n)) && s.records[payout_name(n)] is Payout
}

/// A state that calls have led to: every stored split makes a whole, and every
/// payout so far has its receipt.
pub open spec fn sound(s: RoyaltySplitterModel) -> bool {
    &&& s.governance.admin is None ==> s.count == 0
    &&& forall|name: Seq<char>| #[trigger]
        s.records.contains_key(name) ==> in_order(s.records[name], name, s.count)
    &&& forall|n: nat| 1 <= n <= s.count ==> #[trigger] has_receipt(s, n)
}

/// Whether every stored split makes a whole, under whatever name.
pub open spec fn splits_are_whole(s: RoyaltySplitterModel) -> bool {
    forall|name: Seq<char>|
        s.records.contains_key(name) && (#[trigger] s.records[name]) is Split ==> total_bps(
            s.split(name).contributors,
        ) == TOTAL_BPS
}

/// Every split that is ever stored makes a whole: it does from the start, and
/// no request whatever stores another.
pub proof fn law_splits_stay_whole(s: RoyaltySplitterModel, ctx: ContextModel, request: Request)
    ensures
        splits_are_whole(RoyaltySplitterModel::fresh()),
        splits_are_whole(s) ==> splits_are_whole(step(s, ctx, request).state),
        sound(s) ==> splits_are_whole(s),
{
    let after = step(s, ctx, request).state;
    if splits_are_whole(s) {
        assert forall|name: Seq<char>|
            after.records.contains_key(name) && (
            #[trigger] after.records[name]) is Split implies total_bps(
            after.split(name).contributors,
        ) == TOTAL_BPS by {
            if s.records.contains_key(name) && after.records[name] == s.records[name] {
                assert(s.records[name] is Split);
            }
        }
    }
    if sound(s) {
        assert forall|name: Seq<char>|
            s.records.contains_key(name) && (#[trigger] s.records[name]) is Split implies total_bps(
            s.split(name).contributors,
        ) == TOTAL_BPS by {
            assert(in_order(s.records[name], name, s.count));
        }
    }
}

/// Whether a request does not register a split under the name of a receipt.
pub open spec fn leaves_receipts_alone(request: Request) -> bool {
    request matches Request::RegisterSplit { config } ==> !names_a_receipt(config.dataset_id)
}

/// Whether the counter has room for another payout.
pub open spec fn has_room(s: RoyaltySplitterModel, request: Request) -> bool {
    request is Distribute ==> s.count < u32::MAX
}

/// A splitter starts sound.
pub proof fn law_fresh_is_sound()
    ensures
        sound(RoyaltySplitterModel::fresh()),
{
}

/// Every request keeps a splitter sound.
pub proof fn law_sound_kept(s: RoyaltySplitterModel, ctx: ContextModel, request: Request)
    requires
        sound(s),
        leaves_receipts_alone(request),
        has_room(s, request),
    ensures
        sound(step(s, ctx, request).state),
{
    let after = step(s, ctx, request).state;
    match request {
        Request::RegisterSplit { config } => {
            if s.register(config).answer is Ok {
                assert forall|name: Seq<char>| #[trigger]
                    after.records.contains_key(name) implies in_order(
                    after.records[name],
                    name,
                    after.count,
                ) by {
                    if name != config.dataset_id {
                        assert(s.records.contains_key(name));
                    }
                }
                assert forall|n: nat| 1 <= n <= after.count implies #[trigger] has_receipt(
                    after,
                    n,
                ) by {
                    assert(has_receipt(s, n));
                    assert(payout_name(n) != config.dataset_id);
                }
            }
        },
        Request::Distribute { id, amount, balance, reply } => {
            if s.distribute_fault(id, amount, balance) is None {
                lemma_distribute_sound(s, ctx, id, amount, balance, reply);
            }
        },
        _ => {
            assert(after.records == s.records && after.count == s.count);
            assert forall|n: nat| 1 <= n <= after.count implies #[trigger] has_receipt(
                after,
                n,
            ) by {
                assert(has_receipt(s, n));
            }
        },
    }
}

proof fn lemma_next_name_is_fresh(s: RoyaltySplitterModel)
    requires
        sound(s),
    ensures
        !s.records.contains_key(payout_name((s.count + 1) as nat)),
{
    let name = payout_name((s.count + 1) as nat);
    if s.records.contains_key(name) {
        assert(in_order(s.records[name], name, s.count));
        assert(names_a_receipt(name));
        let n = s.records[name]->Payout_0.tx_count as nat;
        lemma_numbered_injective("pay_"@, n, (s.count + 1) as nat);
    }
}

proof fn lemma_distribute_sound(
    s: RoyaltySplitterModel,
    ctx: ContextModel,
    id: Seq<char>,
    amount: i128,
    balance: i128,
    reply: Option<QualityModel>,
)
    requires
        sound(s),
        s.distribute_fault(id, amount, balance) is None,
        s.count < u32::MAX,
    ensures
        sound(s.distribute(ctx, id, amount, balance, reply).state),
{
    let after = s.distribute(ctx, id, amount, balance, reply).state;
    let next = payout_name((s.count + 1) as nat);
    lemma_next_name_is_fresh(s);
    assert forall|name: Seq<char>| #[trigger] after.records.contains_key(name) implies in_order(
        after.records[name],
        name,
        after.count,
    ) by {
        if name != next {
            assert(s.records.contains_key(name));
            assert(in_order(s.records[name], name, s.count));
        }
    }
    assert forall|n: nat| 1 <= n <= after.count implies #[trigger] has_receipt(after, n) by {
        if n <= s.count {
            assert(has_receipt(s, n));
        }
    }
}

/// Whatever is asked for, what is stored is read as what it is: a payout reads
/// a split, and a receipt number leads to a receipt.
pub proof fn law_records_are_read_as_they_are(s: RoyaltySplitterModel, id: Seq<char>, n: u32)
    requires
        sound(s),
        !names_a_receipt(id),
    ensures
        s.reads_a_split(id),
        s.records.contains_key(payout_name(n as nat)) ==> s.records[payout_name(n as nat)]
            is Payout,
{
    if s.records.contains_key(id) {
        assert(in_order(s.records[id], id, s.count));
        if let RecordModel::Payout(receipt) = s.records[id] {
            assert(id == payout_name(receipt.tx_count as nat));
        }
    }
    if s.records.contains_key(payout_name(n as nat)) {
        assert(names_a_receipt(payout_name(n as nat)));
    }
}

/// A dataset with a split can be paid for any positive amount whose product
/// with the whole can be represented.
pub proof fn law_payout_is_defined(s: RoyaltySplitterModel, id: Seq<char>, amount: i128)
    requires
        splits_are_whole(s),
        s.reads_a_split(id),
        s.unfit_for_payout(id, amount) is None,
        amount * TOTAL_BPS <= i128::MAX,
    ensures
        divisible(s.split(id).contributors, amount as int),
{
    assert(s.records[id] is Split);
    law_whole_split_is_divisible(s.split(id).contributors, amount as int);
}

// Receipts.

/// A payout leaves a receipt under the next number, which was free, and no
/// other request makes one.
pub proof fn law_receipts(s: RoyaltySplitterModel, ctx: ContextModel, request: Request, n: u32)
    requires
        sound(s),
        has_room(s, request),
        leaves_receipts_alone(request),
    ensures
        ({
            let after = step(s, ctx, request).state;
            if n <= s.count {
                after.payout(n) == s.payout(n)
            } else if request is Distribute && step(s, ctx, request).answer is Ok && n == s.count
                + 1 {
                &&& after.count == n
                &&& s.payout(n) is Err
                &&& after.payout(n) == Ok::<PayoutModel, Error>(
                    s.receipt(
                        ctx,
                        request->Distribute_id,
                        request->Distribute_amount,
                        request->Distribute_reply,
                    ),
                )
            } else {
                after.payout(n) == s.payout(n) && after.payout(n) is Err
            }
        }),
{
    lemma_next_name_is_fresh(s);
    if n > s.count {
        lemma_no_receipt_beyond(s, n);
    }
    if n != s.count + 1 && payout_name(n as nat) == payout_name((s.count + 1) as nat) {
        lemma_numbered_injective("pay_"@, n as nat, (s.count + 1) as nat);
    }
    if let Request::RegisterSplit { config } = request {
        assert(payout_name(n as nat) != config.dataset_id);
    }
}

proof fn lemma_no_receipt_beyond(s: RoyaltySplitterModel, n: u32)
    requires
        sound(s),
        n > s.count,
    ensures
        !s.records.contains_key(payout_name(n as nat)),
{
    let name = payout_name(n as nat);
    if s.records.contains_key(name) {
        assert(in_order(s.records[name], name, s.count));
        assert(names_a_receipt(name));
        lemma_numbered_injective("pay_"@, s.records[name]->Payout_0.tx_count as nat, n as nat);
    }
}

/// Without an oracle, or without a reply of it, a receipt says "Unrated".
pub proof fn law_unrated_by_default(s: RoyaltySplitterModel, reply: Option<QualityModel>)
    requires
        s.oracle is None || reply is None,
    ensures
        s.label(reply) == "Unrated"@,
{
}

/// The oracle's reply decides the label alone: neither whether a payout is
/// made, nor what it moves, nor anything else that it asks of the host but for
/// the label in the event, nor what it records but for the label on the receipt.
pub proof fn law_oracle_never_blocks_a_payout(
    s: RoyaltySplitterModel,
    ctx: ContextModel,
    id: Seq<char>,
    amount: i128,
    balance: i128,
    one: Option<QualityModel>,
    other: Option<QualityModel>,
)
    ensures
        ({
            let a = s.distribute(ctx, id, amount, balance, one);
            let b = s.distribute(ctx, id, amount, balance, other);
            let name = payout_name((s.count + 1) as nat);
            &&& a.answer == b.answer
            &&& moved(a.effects) == moved(b.effects)
            &&& a.answer is Ok ==> a.effects.drop_last() == b.effects.drop_last()
            &&& a.answer is Ok ==> a.state == (RoyaltySplitterModel {
                records: b.state.records.insert(
                    name,
                    RecordModel::Payout(
                        PayoutModel {
                            quality_tier: s.label(one),
                            ..b.state.records[name]->Payout_0
                        },
                    ),
                ),
                ..b.state
            })
            &&& a.answer is Err ==> a.effects == b.effects && a.state == b.state
        }),
{
    let a = s.distribute(ctx, id, amount, balance, one);
    let b = s.distribute(ctx, id, amount, balance, other);
    if a.answer is Ok {
        let head = a.effects.take(a.effects.len() - 1);
        assert(a.effects =~= head.push(a.effects.last()));
        assert(b.effects =~= head.push(b.effects.last()));
        assert(a.effects.drop_last() =~= head);
        assert(b.effects.drop_last() =~= head);
    }
}

// Payouts.

/// What transfers move in all.
pub open spec fn moved(effects: Seq<EffectModel>) -> int
    decreases effects.len(),
{
    if effects.len() == 0 {
        0
    } else {
        moved(effects.drop_last()) + match effects.last() {
            EffectModel::Transfer { amount, .. } => amount as int,
            _ => 0,
        }
    }
}

/// What transfers bring to `who`.
pub open spec fn received(effects: Seq<EffectModel>, who: Seq<char>) -> int
    decreases effects.len(),
{
    if effects.len() == 0 {
        0
    } else {
        received(effects.drop_last(), who) + match effects.last() {
            EffectModel::Transfer { to, amount, .. } => if to == who {
                amount as int
            } else {
                0
            },
            _ => 0,
        }
    }
}

proof fn lemma_moved_concat(a: Seq<EffectModel>, b: Seq<EffectModel>)
    ensures
        moved(a + b) == moved(a) + moved(b),
    decreases b.len(),
{
    if b.len() == 0 {
        assert(a + b =~= a);
    } else {
        assert((a + b).drop_last() =~= a + b.drop_last());
        lemma_moved_concat(a, b.drop_last());
    }
}

proof fn lemma_moved_by_transfers(
    config: SplitModel,
    contract: Seq<char>,
    paid: Seq<int>,
    upto: int,
)
    requires
        0 <= upto <= paid.len(),
        forall|i: int| 0 <= i < paid.len() ==> 0 <= #[trigger] paid[i] <= i128::MAX,
    ensures
        moved(transfers(config, contract, paid, upto)) == added(paid.take(upto)),
    decreases upto,
{
    if upto > 0 {
        lemma_moved_by_transfers(config, contract, paid, upto - 1);
        let before = transfers(config, contract, paid, upto - 1);
        let now = transfers(config, contract, paid, upto);
        assert(paid.take(upto).drop_last() =~= paid.take(upto - 1));
        if paid[upto - 1] > 0 {
            assert(now.drop_last() =~= before);
        }
    }
}

proof fn lemma_payouts_fit(config: SplitModel, amount: i128)
    requires
        total_bps(config.contributors) == TOTAL_BPS,
        0 < amount,
    ensures
        ({
            let sum = amount - fee(amount as int);
            let paid = payouts(config.contributors, sum);
            &&& paid.len() == config.contributors.len()
            &&& forall|i: int| 0 <= i < paid.len() ==> 0 <= #[trigger] paid[i] <= i128::MAX
        }),
{
    let sum = amount - fee(amount as int);
    let paid = payouts(config.contributors, sum);
    law_fee(amount as int);
    law_all_is_paid_out(config.contributors, sum);
    law_dust_is_small(config.contributors, sum);
    law_largest(config.contributors);
    assert forall|i: int| 0 <= i < paid.len() implies 0 <= #[trigger] paid[i] by {
        law_only_the_largest_gets_dust(config.contributors, sum, i);
    }
    assert forall|i: int| 0 <= i < paid.len() implies 0 <= #[trigger] paid[i] <= i128::MAX by {
        lemma_one_of_added(paid, i);
    }
}

/// A payout moves exactly the amount: the fee and the shares together, nothing
/// stays behind and nothing is overpaid.
pub proof fn law_payout_moves_the_amount(
    s: RoyaltySplitterModel,
    ctx: ContextModel,
    id: Seq<char>,
    amount: i128,
    balance: i128,
    reply: Option<QualityModel>,
)
    requires
        splits_are_whole(s),
        s.reads_a_split(id),
        s.distribute(ctx, id, amount, balance, reply).answer is Ok,
    ensures
        moved(s.distribute(ctx, id, amount, balance, reply).effects) == amount,
        amount <= balance,
{
    assert(s.records[id] is Split);
    let config = s.split(id);
    let sum = amount - fee(amount as int);
    let paid = payouts(config.contributors, sum);
    law_fee(amount as int);
    lemma_payouts_fit(config, amount);
    law_all_is_paid_out(config.contributors, sum);
    lemma_moved_by_transfers(config, ctx.contract, paid, paid.len() as int);
    assert(paid.take(paid.len() as int) =~= paid);

    let head = s.governance.admin_asked() + seq![keep(KeyModel::Instance)];
    let all = all_transfers(config, ctx.contract, amount as int);
    let to_treasury = seq![all[0]];
    let shares = transfers(config, ctx.contract, paid, paid.len() as int);
    let tail = s.distribute(ctx, id, amount, balance, reply).effects.skip(
        (head.len() + all.len()) as int,
    );
    assert(s.distribute(ctx, id, amount, balance, reply).effects =~= head + all + tail);
    assert(all =~= to_treasury + shares);
    lemma_moved_concat(head + all, tail);
    lemma_moved_concat(head, all);
    lemma_moved_concat(to_treasury, shares);
    assert(to_treasury.drop_last() =~= Seq::<EffectModel>::empty());
    assert(moved(to_treasury.drop_last()) == 0);
    lemma_nothing_received(head, ctx.contract);
    lemma_nothing_received(tail, ctx.contract);
}

/// What the first `upto` payouts owe to `who`.
pub open spec fn owed(
    contributors: Seq<(Seq<char>, u32)>,
    paid: Seq<int>,
    who: Seq<char>,
    upto: int,
) -> int
    decreases upto,
{
    if upto <= 0 {
        0
    } else {
        owed(contributors, paid, who, upto - 1) + if contributors[upto - 1].0 == who {
            paid[upto - 1]
        } else {
            0
        }
    }
}

proof fn lemma_received_concat(a: Seq<EffectModel>, b: Seq<EffectModel>, who: Seq<char>)
    ensures
        received(a + b, who) == received(a, who) + received(b, who),
    decreases b.len(),
{
    if b.len() == 0 {
        assert(a + b =~= a);
    } else {
        assert((a + b).drop_last() =~= a + b.drop_last());
        lemma_received_concat(a, b.drop_last(), who);
    }
}

proof fn lemma_received_by_transfers(
    config: SplitModel,
    contract: Seq<char>,
    paid: Seq<int>,
    who: Seq<char>,
    upto: int,
)
    requires
        0 <= upto <= paid.len(),
        forall|i: int| 0 <= i < paid.len() ==> 0 <= #[trigger] paid[i] <= i128::MAX,
    ensures
        received(transfers(config, contract, paid, upto), who) == owed(
            config.contributors,
            paid,
            who,
            upto,
        ),
    decreases upto,
{
    if upto > 0 {
        lemma_received_by_transfers(config, contract, paid, who, upto - 1);
        let before = transfers(config, contract, paid, upto - 1);
        let now = transfers(config, contract, paid, upto);
        if paid[upto - 1] > 0 {
            assert(now.drop_last() =~= before);
        }
    }
}

/// Everyone receives what they are owed: each contributor their payouts, the
/// treasury the fee, and nobody anything else.
pub proof fn law_everyone_receives_their_due(
    s: RoyaltySplitterModel,
    ctx: ContextModel,
    id: Seq<char>,
    amount: i128,
    balance: i128,
    reply: Option<QualityModel>,
    who: Seq<char>,
)
    requires
        splits_are_whole(s),
        s.reads_a_split(id),
        s.distribute(ctx, id, amount, balance, reply).answer is Ok,
    ensures
        ({
            let config = s.split(id);
            let paid = payouts(config.contributors, amount - fee(amount as int));
            received(s.distribute(ctx, id, amount, balance, reply).effects, who) == owed(
                config.contributors,
                paid,
                who,
                paid.len() as int,
            ) + if who == config.treasury {
                fee(amount as int)
            } else {
                0
            }
        }),
{
    assert(s.records[id] is Split);
    let config = s.split(id);
    let paid = payouts(config.contributors, amount - fee(amount as int));
    law_fee(amount as int);
    lemma_payouts_fit(config, amount);
    lemma_received_by_transfers(config, ctx.contract, paid, who, paid.len() as int);

    let head = s.governance.admin_asked() + seq![keep(KeyModel::Instance)];
    let all = all_transfers(config, ctx.contract, amount as int);
    let to_treasury = seq![all[0]];
    let shares = transfers(config, ctx.contract, paid, paid.len() as int);
    let tail = s.distribute(ctx, id, amount, balance, reply).effects.skip(
        (head.len() + all.len()) as int,
    );
    assert(s.distribute(ctx, id, amount, balance, reply).effects =~= head + all + tail);
    assert(all =~= to_treasury + shares);
    lemma_received_concat(head + all, tail, who);
    lemma_received_concat(head, all, who);
    lemma_received_concat(to_treasury, shares, who);
    assert(to_treasury.drop_last() =~= Seq::<EffectModel>::empty());
    assert(received(to_treasury.drop_last(), who) == 0);
    lemma_nothing_received(head, who);
    lemma_nothing_received(tail, who);
}

proof fn lemma_nothing_received(effects: Seq<EffectModel>, who: Seq<char>)
    requires
        forall|i: int| 0 <= i < effects.len() ==> !((#[trigger] effects[i]) is Transfer),
    ensures
        received(effects, who) == 0,
        moved(effects) == 0,
    decreases effects.len(),
{
    if effects.len() > 0 {
        let rest = effects.drop_last();
        assert forall|i: int| 0 <= i < rest.len() implies !((#[trigger] rest[i]) is Transfer) by {
            assert(rest[i] == effects[i]);
        }
        lemma_nothing_received(rest, who);
    }
}

/// Every transfer of a payout comes from the contract, in the token of the
/// split.
pub proof fn law_payout_spends_its_own(
    s: RoyaltySplitterModel,
    ctx: ContextModel,
    id: Seq<char>,
    amount: i128,
    balance: i128,
    reply: Option<QualityModel>,
    at: int,
)
    requires
        s.distribute(ctx, id, amount, balance, reply).answer is Ok,
        0 <= at < s.distribute(ctx, id, amount, balance, reply).effects.len(),
    ensures
        s.distribute(ctx, id, amount, balance, reply).effects[at] matches EffectModel::Transfer {
            token,
            from,
            ..
        } ==> token == s.split(id).token && from == ctx.contract,
{
    let config = s.split(id);
    let paid = payouts(config.contributors, amount - fee(amount as int));
    lemma_transfers_spend_their_own(
        config,
        ctx.contract,
        paid,
        config.contributors.len() as int,
    );
    let all = all_transfers(config, ctx.contract, amount as int);
    let shares = transfers(config, ctx.contract, paid, config.contributors.len() as int);
    let start = s.governance.admin_asked().len() + 1;
    if start < at < start + all.len() {
        assert(s.distribute(ctx, id, amount, balance, reply).effects[at] == shares[at - start - 1]);
    }
}

proof fn lemma_transfers_spend_their_own(
    config: SplitModel,
    contract: Seq<char>,
    paid: Seq<int>,
    upto: int,
)
    ensures
        forall|i: int|
            0 <= i < transfers(config, contract, paid, upto).len() ==> (
            #[trigger] transfers(config, contract, paid, upto)[i] matches EffectModel::Transfer {
                token,
                from,
                ..
            } && token == config.token && from == contract),
    decreases upto,
{
    if upto > 0 {
        lemma_transfers_spend_their_own(config, contract, paid, upto - 1);
    }
}

/// What transfers of `token` change in the balance of `who`.
pub open spec fn balance_change(
    effects: Seq<EffectModel>,
    who: Seq<char>,
    token: Seq<char>,
) -> int
    decreases effects.len(),
{
    if effects.len() == 0 {
        0
    } else {
        balance_change(effects.drop_last(), who, token) + match effects.last() {
            EffectModel::Transfer { token: moved_token, from, to, amount } => if moved_token
                == token {
                (if to == who {
                    amount as int
                } else {
                    0
                }) - (if from == who {
                    amount as int
                } else {
                    0
                })
            } else {
                0
            },
            _ => 0,
        }
    }
}

/// The state that a run of requests leads to.
pub open spec fn after_run(
    s: RoyaltySplitterModel,
    run: Seq<(ContextModel, Request)>,
) -> RoyaltySplitterModel
    decreases run.len(),
{
    if run.len() == 0 {
        s
    } else {
        step(after_run(s, run.drop_last()), run.last().0, run.last().1).state
    }
}

/// Whether every payout of a run reads a split, and not a receipt.
pub open spec fn reads_splits(s: RoyaltySplitterModel, run: Seq<(ContextModel, Request)>) -> bool
    decreases run.len(),
{
    run.len() > 0 ==> {
        &&& reads_splits(s, run.drop_last())
        &&& run.last().1 matches Request::Distribute { id, .. } ==> after_run(
            s,
            run.drop_last(),
        ).reads_a_split(id)
    }
}

/// What a run of requests changes in the contract's balance of `token`.
pub open spec fn change_over(
    s: RoyaltySplitterModel,
    run: Seq<(ContextModel, Request)>,
    token: Seq<char>,
) -> int
    decreases run.len(),
{
    if run.len() == 0 {
        0
    } else {
        let (ctx, request) = run.last();
        change_over(s, run.drop_last(), token) + balance_change(
            step(after_run(s, run.drop_last()), ctx, request).effects,
            ctx.contract,
            token,
        )
    }
}

/// What a request pays out in `token`: the amount of a payout that is made.
pub open spec fn pays_out(
    s: RoyaltySplitterModel,
    ctx: ContextModel,
    request: Request,
    token: Seq<char>,
) -> int {
    match request {
        Request::Distribute { id, amount, .. } if step(s, ctx, request).answer is Ok && s.split(
            id,
        ).token == token => amount as int,
        _ => 0,
    }
}

/// The amounts of all payouts that a run of requests makes in `token`.
pub open spec fn paid_over(
    s: RoyaltySplitterModel,
    run: Seq<(ContextModel, Request)>,
    token: Seq<char>,
) -> int
    decreases run.len(),
{
    if run.len() == 0 {
        0
    } else {
        let (ctx, request) = run.last();
        paid_over(s, run.drop_last(), token) + pays_out(
            after_run(s, run.drop_last()),
            ctx,
            request,
            token,
        )
    }
}

/// Whether no payout of a run pays the contract itself.
pub open spec fn pays_others(s: RoyaltySplitterModel, run: Seq<(ContextModel, Request)>) -> bool
    decreases run.len(),
{
    run.len() > 0 ==> {
        let (ctx, request) = run.last();
        &&& pays_others(s, run.drop_last())
        &&& none_to(step(after_run(s, run.drop_last()), ctx, request).effects, ctx.contract)
    }
}

/// Whether no transfer goes to `who`.
pub open spec fn none_to(effects: Seq<EffectModel>, who: Seq<char>) -> bool {
    forall|i: int|
        0 <= i < effects.len() ==> ((#[trigger] effects[i]) matches EffectModel::Transfer {
            to,
            ..
        } ==> to != who)
}

/// However many payouts are made, and whatever comes between them, the
/// contract's balance falls by the sum of their amounts: no dust gathers, and
/// nothing is taken that a payout does not account for.
pub proof fn law_payouts_add_up(
    s: RoyaltySplitterModel,
    run: Seq<(ContextModel, Request)>,
    token: Seq<char>,
)
    requires
        splits_are_whole(s),
        reads_splits(s, run),
        pays_others(s, run),
    ensures
        change_over(s, run, token) == -paid_over(s, run, token),
        splits_are_whole(after_run(s, run)),
    decreases run.len(),
{
    if run.len() > 0 {
        let before = after_run(s, run.drop_last());
        let (ctx, request) = run.last();
        law_payouts_add_up(s, run.drop_last(), token);
        law_splits_stay_whole(before, ctx, request);
        law_balance_falls_by_the_amount(before, ctx, request, token);
    }
}

/// A request lowers the contract's balance by what it pays out, and no other
/// request touches it.
pub proof fn law_balance_falls_by_the_amount(
    s: RoyaltySplitterModel,
    ctx: ContextModel,
    request: Request,
    token: Seq<char>,
)
    requires
        splits_are_whole(s),
        request matches Request::Distribute { id, .. } ==> s.reads_a_split(id),
        none_to(step(s, ctx, request).effects, ctx.contract),
    ensures
        balance_change(step(s, ctx, request).effects, ctx.contract, token) == -pays_out(
            s,
            ctx,
            request,
            token,
        ),
{
    let effects = step(s, ctx, request).effects;
    match request {
        Request::Distribute { id, amount, balance, reply } if step(
            s,
            ctx,
            request,
        ).answer is Ok => {
            let config = s.split(id);
            law_payout_moves_the_amount(s, ctx, id, amount, balance, reply);
            assert forall|i: int| 0 <= i < effects.len() implies spends(
                #[trigger] effects[i],
                ctx.contract,
                config.token,
            ) by {
                law_payout_spends_its_own(s, ctx, id, amount, balance, reply, i);
            }
            lemma_balance_falls(effects, ctx.contract, config.token, token);
        },
        _ => {
            lemma_balance_falls(effects, ctx.contract, token, token);
            lemma_nothing_received(effects, ctx.contract);
        },
    }
}

/// Whether a transfer, if `effect` is one, spends `token` of `who`.
pub open spec fn spends(effect: EffectModel, who: Seq<char>, token: Seq<char>) -> bool {
    effect matches EffectModel::Transfer { token: spent, from, .. } ==> spent == token && from
        == who
}

proof fn lemma_balance_falls(
    effects: Seq<EffectModel>,
    who: Seq<char>,
    spent: Seq<char>,
    token: Seq<char>,
)
    requires
        none_to(effects, who),
        forall|i: int| 0 <= i < effects.len() ==> spends(#[trigger] effects[i], who, spent),
    ensures
        balance_change(effects, who, token) == if token == spent {
            -moved(effects)
        } else {
            0
        },
    decreases effects.len(),
{
    if effects.len() > 0 {
        let rest = effects.drop_last();
        assert forall|i: int| 0 <= i < rest.len() implies spends(#[trigger] rest[i], who, spent) && (
        rest[i] matches EffectModel::Transfer { to, .. } ==> to != who) by {
            assert(rest[i] == effects[i]);
        }
        lemma_balance_falls(rest, who, spent, token);
        assert(spends(effects[effects.len() - 1], who, spent));
    }
}

/// Without the balance for all of it nothing is moved at all, and nothing is
/// recorded.
pub proof fn law_all_or_nothing(
    s: RoyaltySplitterModel,
    ctx: ContextModel,
    id: Seq<char>,
    amount: i128,
    balance: i128,
    reply: Option<QualityModel>,
)
    requires
        balance < amount,
    ensures
        s.distribute(ctx, id, amount, balance, reply).answer is Err,
        s.distribute(ctx, id, amount, balance, reply).state == s,
        moved(s.distribute(ctx, id, amount, balance, reply).effects) == 0,
{
    let fx = s.distribute(ctx, id, amount, balance, reply).effects;
    assert(fx.len() <= 1);
    if fx.len() == 1 {
        assert(fx.drop_last() =~= Seq::<EffectModel>::empty());
        assert(moved(fx.drop_last()) == 0);
        assert(fx.last() is Authorize);
    }
}

/// A split that is stored changes only by being registered anew, which the
/// admin signs.
pub proof fn law_splits_change_by_registration(
    s: RoyaltySplitterModel,
    ctx: ContextModel,
    request: Request,
    id: Seq<char>,
)
    requires
        !names_a_receipt(id),
        s.records.contains_key(id),
        step(s, ctx, request).state.records[id] != s.records[id],
    ensures
        request matches Request::RegisterSplit { config } && config.dataset_id == id,
        step(s, ctx, request).effects[0] == EffectModel::Authorize(s.governance.admin->0),
{
    assert(payout_name((s.count + 1) as nat) != id);
}

// Lifetimes.

/// Every record that a request writes is kept for the full window.
pub proof fn law_writes_are_kept(
    s: RoyaltySplitterModel,
    ctx: ContextModel,
    request: Request,
    name: Seq<char>,
)
    requires
        step(s, ctx, request).state.records.contains_key(name),
        !s.records.contains_key(name) || step(s, ctx, request).state.records[name]
            != s.records[name],
    ensures
        step(s, ctx, request).effects.contains(keep(KeyModel::Record(name))),
{
    let fx = step(s, ctx, request).effects;
    match request {
        Request::Distribute { id, amount, balance, reply } => {
            assert(fx[fx.len() - 2] == keep(KeyModel::Record(name)));
        },
        _ => {
            assert(fx[2] == keep(KeyModel::Record(name)));
        },
    }
}

/// Any request that keeps a record keeps the contract too.
pub proof fn law_contract_outlives_records(
    s: RoyaltySplitterModel,
    ctx: ContextModel,
    request: Request,
    at: int,
)
    requires
        0 <= at < step(s, ctx, request).effects.len(),
        step(s, ctx, request).effects[at] is Extend,
    ensures
        step(s, ctx, request).effects.contains(keep(KeyModel::Instance)),
{
    let fx = step(s, ctx, request).effects;
    if request is RenewSplit || request is RenewPayout {
        assert(fx[0] == keep(KeyModel::Instance));
    } else {
        assert(fx[1] == keep(KeyModel::Instance));
    }
}

/// A renewal changes nothing.
pub proof fn law_renewal_changes_nothing(s: RoyaltySplitterModel, id: Seq<char>, n: u32)
    ensures
        s.renew_split(id).state == s,
        s.renew_payout(n).state == s,
{
}

} // verus!
