//! What holds of the oracle as a whole.
//!
//! A [`Request`] is any call that may change the oracle or ask something of
//! the host, and [`step`] is what comes of it. The laws speak of every request
//! in every sound state.

use crate::governance::GovernanceModel;
use crate::host::{keep, ContextModel, EffectModel, KeyModel};
use crate::quality_oracle::median::{has_median, law_median_within, lemma_ascending_keeps, median};
use crate::quality_oracle::{lemma_mean_fits, multiplier_of, tier_of, AttestationModel, CallOutcome,
    CuratorState, CuratorStatus, Error, QualityModel, QualityOracleModel, Submission, MAX_SCORE,
    MIN_CURATOR_STAKE, SLASH_DEVIATION_THRESHOLD};
use crate::sums::{lemma_sum_insert, sum_over};
use vstd::prelude::*;

verus! {

/// A call to the oracle.
pub enum Request {
    Initialize { admin: Seq<char> },
    ProposeAdmin { successor: Seq<char> },
    AcceptAdmin,
    Pause,
    Unpause,
    Upgrade { hash: Seq<u8> },
    Register { curator: Seq<char> },
    Attest { submission: Submission },
    Slash { curator: Seq<char>, dataset_id: Seq<char> },
    Renew { dataset_id: Seq<char> },
}

/// What comes of a request.
pub open spec fn step(s: QualityOracleModel, ctx: ContextModel, request: Request) -> CallOutcome {
    match request {
        Request::Initialize { admin } => s.initialize(admin),
        Request::ProposeAdmin { successor } => s.governed(s.governance.propose(successor)),
        Request::AcceptAdmin => s.governed(s.governance.accept_proposal()),
        Request::Pause => s.governed(s.governance.pause(ctx)),
        Request::Unpause => s.governed(s.governance.unpause(ctx)),
        Request::Upgrade { hash } => s.governed(s.governance.upgrade(ctx, hash)),
        Request::Register { curator } => s.register(curator),
        Request::Attest { submission } => s.attest(ctx, submission),
        Request::Slash { curator, dataset_id } => s.slash(curator, dataset_id),
        Request::Renew { dataset_id } => s.renew(dataset_id),
    }
}

// The freeze and refusals.

/// The requests that a freeze stops.
pub open spec fn is_write(request: Request) -> bool {
    request is Register || request is Attest || request is Slash
}

/// A frozen contract refuses every write, changes nothing and asks nobody to
/// authorize anything.
pub proof fn law_frozen(s: QualityOracleModel, ctx: ContextModel, request: Request)
    requires
        s.governance.paused,
        is_write(request),
    ensures
        step(s, ctx, request).answer == Err::<(), Error>(Error::ContractPaused),
        step(s, ctx, request).state == s,
        step(s, ctx, request).effects.len() == 0,
{
}

/// The state with the freeze set to `paused`.
pub open spec fn with_freeze(s: QualityOracleModel, paused: bool) -> QualityOracleModel {
    QualityOracleModel { governance: GovernanceModel { paused, ..s.governance }, ..s }
}

/// Renewals, the admin handover, upgrades and an initialization go on in a
/// frozen contract as in a live one.
pub proof fn law_open_while_frozen(s: QualityOracleModel, ctx: ContextModel, request: Request)
    requires
        s.governance.paused,
        request is Initialize || request is ProposeAdmin || request is AcceptAdmin
            || request is Upgrade || request is Renew,
    ensures
        ({
            let live = step(with_freeze(s, false), ctx, request);
            let frozen = step(s, ctx, request);
            &&& frozen.answer == live.answer
            &&& frozen.effects == live.effects
            &&& frozen.state == with_freeze(live.state, true)
        }),
{
}

/// A freeze hides nothing: all that can be read stays as it is.
pub proof fn law_reads_go_on(s: QualityOracleModel, paused: bool)
    ensures
        with_freeze(s, paused).curator_count == s.curator_count,
        with_freeze(s, paused).treasury == s.treasury,
        with_freeze(s, paused).curators == s.curators,
        with_freeze(s, paused).attestations == s.attestations,
        with_freeze(s, paused).attesters == s.attesters,
        with_freeze(s, paused).qualities == s.qualities,
        with_freeze(s, paused).governance.admin == s.governance.admin,
        with_freeze(s, paused).governance.proposed == s.governance.proposed,
{
}

/// A freeze that is lifted leaves the contract as it was.
pub proof fn law_freeze_round_trip(
    s: QualityOracleModel,
    before: ContextModel,
    after: ContextModel,
)
    requires
        s.governance.admin is Some,
        !s.governance.paused,
    ensures
        ({
            let frozen = step(s, before, Request::Pause);
            let lifted = step(frozen.state, after, Request::Unpause);
            &&& frozen.answer is Ok
            &&& frozen.state.governance.paused
            &&& lifted.answer is Ok
            &&& lifted.state == s
        }),
{
}

/// Whether only authorizations are asked.
pub open spec fn only_authorizations(effects: Seq<EffectModel>) -> bool {
    forall|i: int| 0 <= i < effects.len() ==> (#[trigger] effects[i]) is Authorize
}

/// A refused request changes nothing, and asks for nothing but authorizations.
pub proof fn law_refusal_changes_nothing(
    s: QualityOracleModel,
    ctx: ContextModel,
    request: Request,
)
    requires
        step(s, ctx, request).answer is Err,
    ensures
        step(s, ctx, request).state == s,
        only_authorizations(step(s, ctx, request).effects),
{
}

/// Whoever becomes the admin has authorized it.
pub proof fn law_new_admin_signed(s: QualityOracleModel, ctx: ContextModel, request: Request)
    requires
        step(s, ctx, request).state.governance.admin != s.governance.admin,
    ensures
        step(s, ctx, request).state.governance.admin is Some,
        step(s, ctx, request).effects.len() > 0,
        step(s, ctx, request).effects[0] == EffectModel::Authorize(
            step(s, ctx, request).state.governance.admin->0,
        ),
{
}

// What every request keeps.

/// What a curator's stake is worth.
pub open spec fn stake_of() -> spec_fn(CuratorState) -> int {
    |c: CuratorState| c.stake as int
}

/// What a curator of a standing still has at stake: a fifth less with each
/// slash.
pub open spec fn stake_at(status: CuratorStatus) -> i128 {
    match status {
        CuratorStatus::Active => 100_000_000,
        CuratorStatus::SlashWarning => 80_000_000,
        CuratorStatus::Banned => 64_000_000,
    }
}

/// Whether all stakes and the treasury together are what was staked, and every
/// stake is that of its curator's standing.
pub open spec fn stakes_add_up(s: QualityOracleModel) -> bool {
    &&& s.curators.dom().finite()
    &&& forall|who: Seq<char>| #[trigger]
        s.curators.contains_key(who) ==> s.curators[who].stake == stake_at(s.curators[who].status)
    &&& s.treasury >= 0
    &&& s.treasury + sum_over(s.curators, stake_of()) == s.curators.dom().len()
        * MIN_CURATOR_STAKE
}

/// Whether the count of curators is at most behind by those who registered
/// before the contract was initialized, which starts the count over.
pub open spec fn count_in_order(s: QualityOracleModel) -> bool {
    let registered = s.curators.dom().len();
    if s.governance.admin is None {
        s.curator_count == registered
    } else {
        s.curator_count <= registered <= s.curator_count + u32::MAX
    }
}

/// Whether the count is that of all curators.
pub open spec fn counts_all(s: QualityOracleModel) -> bool {
    s.curator_count == s.curators.dom().len()
}

/// Whether an attestation is in order, stored under `key`.
pub open spec fn attestation_in_order(a: AttestationModel, key: (Seq<char>, Seq<char>)) -> bool {
    &&& a.dataset_id == key.0
    &&& a.curator == key.1
    &&& a.score <= MAX_SCORE
}

/// Whether an aggregate is in order, stored under `id`.
pub open spec fn quality_in_order(q: QualityModel, id: Seq<char>) -> bool {
    &&& q.dataset_id == id
    &&& q.average_score <= MAX_SCORE
    &&& q.attestation_count >= 1
    &&& q.tier == tier_of(q.average_score)
}

/// Whether the list of a dataset names those who scored it, each once.
pub open spec fn list_in_order(s: QualityOracleModel, id: Seq<char>) -> bool {
    let list = s.attesters[id];
    &&& list.len() > 0
    &&& list.no_duplicates()
    &&& forall|i: int|
        0 <= i < list.len() ==> s.attestations.contains_key((id, #[trigger] list[i]))
}

/// A state that calls have led to.
pub open spec fn sound(s: QualityOracleModel) -> bool {
    &&& stakes_add_up(s)
    &&& count_in_order(s)
    &&& forall|key: (Seq<char>, Seq<char>)| #[trigger]
        s.attestations.contains_key(key) ==> {
            &&& attestation_in_order(s.attestations[key], key)
            &&& s.curators.contains_key(key.1)
            &&& s.attesters.contains_key(key.0)
            &&& s.attesters[key.0].contains(key.1)
        }
    &&& forall|id: Seq<char>| #[trigger] s.attesters.contains_key(id) ==> list_in_order(s, id)
    &&& forall|id: Seq<char>| #[trigger]
        s.qualities.contains_key(id) ==> quality_in_order(s.qualities[id], id)
    &&& s.qualities.dom() == s.attesters.dom()
}

/// Whether a request does not start the count of curators over: an
/// initialization, on a contract that nobody initialized, after curators
/// registered.
pub open spec fn keeps_count(s: QualityOracleModel, request: Request) -> bool {
    request is Initialize && s.governance.admin is None ==> s.curator_count == 0
}

/// Whether the counters have room for what is asked.
pub open spec fn has_room(s: QualityOracleModel, request: Request) -> bool {
    match request {
        Request::Register { curator } => s.curator_count < u32::MAX,
        Request::Attest { submission } => s.quality(submission.dataset_id).attestation_count
            < u32::MAX,
        _ => true,
    }
}

/// An oracle starts sound.
pub proof fn law_fresh_is_sound()
    ensures
        sound(QualityOracleModel::fresh()),
        counts_all(QualityOracleModel::fresh()),
{
    let s = QualityOracleModel::fresh();
    assert(s.qualities.dom() =~= s.attesters.dom());
}

/// Every request keeps an oracle sound: the stakes and the treasury together
/// are what was staked, every average is a score and decides its tier, and the
/// lists name exactly those who scored.
pub proof fn law_sound_kept(s: QualityOracleModel, ctx: ContextModel, request: Request)
    requires
        sound(s),
        has_room(s, request),
    ensures
        sound(step(s, ctx, request).state),
{
    let after = step(s, ctx, request).state;
    match request {
        Request::Register { curator } => {
            if s.register(curator).answer is Ok {
                lemma_register_sound(s, curator);
            }
        },
        Request::Attest { submission } => {
            if s.attest_fault(submission) is None {
                lemma_attest_sound(s, ctx, submission);
            }
        },
        Request::Slash { curator, dataset_id } => {
            if s.slash_fault(curator, dataset_id) is None {
                lemma_slash_sound(s, curator, dataset_id);
            }
        },
        _ => {
            assert(after.curators == s.curators && after.attestations == s.attestations
                && after.attesters == s.attesters && after.qualities == s.qualities
                && after.treasury == s.treasury);
            assert forall|id: Seq<char>| #[trigger]
                after.attesters.contains_key(id) implies list_in_order(after, id) by {
                assert(list_in_order(s, id));
            }
        },
    }
}

/// The count stays that of all curators, unless an initialization starts it
/// over after curators registered.
pub proof fn law_count_kept(s: QualityOracleModel, ctx: ContextModel, request: Request)
    requires
        sound(s),
        counts_all(s),
        keeps_count(s, request),
        has_room(s, request),
    ensures
        counts_all(step(s, ctx, request).state),
{
    let after = step(s, ctx, request).state;
    match request {
        Request::Register { curator } => {
            if s.register(curator).answer is Ok {
                assert(after.curators.dom() =~= s.curators.dom().insert(curator));
            }
        },
        Request::Slash { curator, dataset_id } => {
            if s.slash_fault(curator, dataset_id) is None {
                assert(after.curators.dom() =~= s.curators.dom());
            }
        },
        _ => {
            assert(after.curators == s.curators);
        },
    }
}

proof fn lemma_lists_stand(s: QualityOracleModel, after: QualityOracleModel)
    requires
        sound(s),
        after.attestations == s.attestations,
        after.attesters == s.attesters,
    ensures
        forall|id: Seq<char>| #[trigger]
            after.attesters.contains_key(id) ==> list_in_order(after, id),
{
    assert forall|id: Seq<char>| #[trigger]
        after.attesters.contains_key(id) implies list_in_order(after, id) by {
        assert(list_in_order(s, id));
    }
}

proof fn lemma_register_sound(s: QualityOracleModel, curator: Seq<char>)
    requires
        sound(s),
        s.register(curator).answer is Ok,
        s.curator_count < u32::MAX,
    ensures
        sound(s.register(curator).state),
{
    let after = s.register(curator).state;
    let state = after.curators[curator];
    lemma_lists_stand(s, after);
    lemma_sum_insert(s.curators, stake_of(), curator, state);
    assert(after.curators.dom() =~= s.curators.dom().insert(curator));
    let registered = s.curators.dom().len();
    assert((registered + 1) * MIN_CURATOR_STAKE == registered * MIN_CURATOR_STAKE
        + MIN_CURATOR_STAKE) by (nonlinear_arith);
}

proof fn lemma_slash_sound(s: QualityOracleModel, curator: Seq<char>, id: Seq<char>)
    requires
        sound(s),
        s.slash_fault(curator, id) is None,
    ensures
        sound(s.slash(curator, id).state),
{
    let after = s.slash(curator, id).state;
    let state = after.curators[curator];
    law_slash_is_defined(s, curator, id);
    lemma_lists_stand(s, after);
    lemma_sum_insert(s.curators, stake_of(), curator, state);
    assert(after.curators.dom() =~= s.curators.dom());
    assert(s.curators[curator].slash() == s.curators[curator].stake / 5);
}

proof fn lemma_attest_sound(s: QualityOracleModel, ctx: ContextModel, submission: Submission)
    requires
        sound(s),
        s.attest_fault(submission) is None,
        s.quality(submission.dataset_id).attestation_count < u32::MAX,
    ensures
        sound(s.attest(ctx, submission).state),
{
    let after = s.attest(ctx, submission).state;
    let id = submission.dataset_id;
    let curator = submission.curator;
    let quality = s.quality(id);
    let before = s.listed(id);
    let list = after.attesters[id];
    lemma_mean_fits(
        quality.average_score as int,
        quality.attestation_count as int,
        submission.score as int,
    );
    assert(after.qualities.dom() =~= after.attesters.dom());
    assert forall|i: int| 0 <= i < before.len() implies s.attestations.contains_key(
        (id, #[trigger] before[i]),
    ) by {
        assert(list_in_order(s, id));
    }
    assert(list.contains(curator)) by {
        if !before.contains(curator) {
            assert(list[before.len() as int] == curator);
        }
    }
    assert(list.no_duplicates()) by {
        if s.attesters.contains_key(id) {
            assert(list_in_order(s, id));
        }
    }
    assert(list_in_order(after, id)) by {
        assert forall|i: int| 0 <= i < list.len() implies after.attestations.contains_key(
            (id, #[trigger] list[i]),
        ) by {
            if i < before.len() {
                assert(before[i] == list[i]);
            }
        }
    }
    assert forall|k: Seq<char>| #[trigger] after.attesters.contains_key(k) implies list_in_order(
        after,
        k,
    ) by {
        if k != id {
            assert(list_in_order(s, k));
        }
    }
    assert forall|key: (Seq<char>, Seq<char>)| #[trigger]
        after.attestations.contains_key(key) implies {
        &&& attestation_in_order(after.attestations[key], key)
        &&& after.curators.contains_key(key.1)
        &&& after.attesters.contains_key(key.0)
        &&& after.attesters[key.0].contains(key.1)
    } by {
        if key != (id, curator) {
            assert(s.attestations.contains_key(key));
            if key.0 == id {
                let i = choose|i: int| 0 <= i < before.len() && before[i] == key.1;
                assert(list[i] == key.1);
            }
        }
    }
    assert forall|k: Seq<char>| #[trigger] after.qualities.contains_key(k) implies quality_in_order(
        after.qualities[k],
        k,
    ) by {
        if k != id {
            assert(s.qualities.contains_key(k));
        }
    }
}

// Scores and tiers.

/// The average of a dataset is a score, and decides its tier.
pub proof fn law_average_is_a_score(s: QualityOracleModel, id: Seq<char>)
    requires
        sound(s),
        s.qualities.contains_key(id),
    ensures
        s.qualities[id].average_score <= MAX_SCORE,
        s.qualities[id].tier == tier_of(s.qualities[id].average_score),
{
    assert(quality_in_order(s.qualities[id], id));
}

/// Royalties are multiplied by one of four values, whatever the dataset.
pub proof fn law_four_multipliers(s: QualityOracleModel, id: Seq<char>)
    ensures
        ({
            let bps = s.multiplier(id);
            bps == 7_500 || bps == 10_000 || bps == 12_500 || bps == 15_000
        }),
{
}

/// A rated dataset with a higher average never earns less.
pub proof fn law_better_never_earns_less(low: u32, high: u32)
    requires
        1 <= low <= high,
    ensures
        multiplier_of(tier_of(low)) <= multiplier_of(tier_of(high)),
{
}

/// One more score moves the average between where it was and the score; the
/// first score is the average.
pub proof fn law_average_moves_towards_the_score(q: QualityModel, score: u32, sequence: u32)
    requires
        q.attestation_count < u32::MAX,
    ensures
        ({
            let after = q.with_score(score, sequence);
            &&& q.attestation_count == 0 ==> after.average_score == score
            &&& q.attestation_count > 0 && q.average_score <= score ==> q.average_score
                <= after.average_score <= score
            &&& q.attestation_count > 0 && score <= q.average_score ==> score
                <= after.average_score <= q.average_score
            &&& after.attestation_count == q.attestation_count + 1
        }),
{
    let average = q.average_score as int;
    let count = q.attestation_count as int;
    let total = average * count + score;
    lemma_mean_fits(average, count, score as int);
    let least = if average <= score {
        average
    } else {
        score as int
    };
    assert(least * (count + 1) <= total) by (nonlinear_arith)
        requires
            total == average * count + score,
            least <= average,
            least <= score,
            0 <= count,
    ;
    vstd::arithmetic::div_mod::lemma_div_is_ordered(least * (count + 1), total, count + 1);
    vstd::arithmetic::div_mod::lemma_div_by_multiple(least, count + 1);
    if count == 0 {
        assert(average * count == 0) by (nonlinear_arith)
            requires
                count == 0,
        ;
        assert(total / 1 == total);
    }
}

/// The state that a run of requests leads to.
pub open spec fn after_run(
    s: QualityOracleModel,
    run: Seq<(ContextModel, Request)>,
) -> QualityOracleModel
    decreases run.len(),
{
    if run.len() == 0 {
        s
    } else {
        step(after_run(s, run.drop_last()), run.last().0, run.last().1).state
    }
}

/// The scores that a run of requests gave the dataset `id`.
pub open spec fn scores_given(
    s: QualityOracleModel,
    run: Seq<(ContextModel, Request)>,
    id: Seq<char>,
) -> Seq<u32>
    decreases run.len(),
{
    if run.len() == 0 {
        seq![]
    } else {
        let before = scores_given(s, run.drop_last(), id);
        match run.last().1 {
            Request::Attest { submission } if submission.dataset_id == id && after_run(
                s,
                run.drop_last(),
            ).attest_fault(submission) is None => before.push(submission.score),
            _ => before,
        }
    }
}

/// What scores add up to.
pub open spec fn score_total(scores: Seq<u32>) -> int
    decreases scores.len(),
{
    if scores.len() == 0 {
        0
    } else {
        score_total(scores.drop_last()) + scores.last()
    }
}

/// Whether no score is below `least`.
pub open spec fn at_least(scores: Seq<u32>, least: u32) -> bool {
    forall|i: int| 0 <= i < scores.len() ==> least <= #[trigger] scores[i]
}

/// Over any run of requests, the average of a dataset that had no score stays
/// at or above the least score it got, and at or below the exact mean of its
/// scores, rounded down. Rounding at every score can only lower it.
pub proof fn law_average_over_a_run(
    s: QualityOracleModel,
    run: Seq<(ContextModel, Request)>,
    id: Seq<char>,
    least: u32,
)
    requires
        s.quality(id) == QualityModel::unrated(id),
        0 < scores_given(s, run, id).len() <= u32::MAX,
        at_least(scores_given(s, run, id), least),
    ensures
        ({
            let quality = after_run(s, run).quality(id);
            let scores = scores_given(s, run, id);
            &&& quality.attestation_count == scores.len()
            &&& least <= quality.average_score <= score_total(scores) / scores.len() as int
        }),
{
    lemma_average_over_a_run(s, run, id, least);
    let average = after_run(s, run).quality(id).average_score as int;
    let scores = scores_given(s, run, id);
    let count = scores.len() as int;
    vstd::arithmetic::div_mod::lemma_div_is_ordered(average * count, score_total(scores), count);
    vstd::arithmetic::div_mod::lemma_div_by_multiple(average, count);
}

proof fn lemma_average_over_a_run(
    s: QualityOracleModel,
    run: Seq<(ContextModel, Request)>,
    id: Seq<char>,
    least: u32,
)
    requires
        s.quality(id) == QualityModel::unrated(id),
        scores_given(s, run, id).len() <= u32::MAX,
        at_least(scores_given(s, run, id), least),
    ensures
        ({
            let quality = after_run(s, run).quality(id);
            let scores = scores_given(s, run, id);
            &&& quality.attestation_count == scores.len()
            &&& scores.len() > 0 ==> least <= quality.average_score
            &&& quality.average_score * scores.len() <= score_total(scores)
        }),
    decreases run.len(),
{
    if run.len() > 0 {
        let before = after_run(s, run.drop_last());
        let given = scores_given(s, run.drop_last(), id);
        let scores = scores_given(s, run, id);
        assert forall|i: int| 0 <= i < given.len() implies least <= #[trigger] given[i] by {
            assert(given[i] == scores[i]);
        }
        lemma_average_over_a_run(s, run.drop_last(), id, least);
        let (ctx, request) = run.last();
        let after = step(before, ctx, request).state;
        match request {
            Request::Attest { submission } if submission.dataset_id == id && before.attest_fault(
                submission,
            ) is None => {
                let old_quality = before.quality(id);
                let score = submission.score;
                let count = old_quality.attestation_count as int;
                let total = old_quality.average_score * count + score;
                assert(scores == given.push(score));
                assert(scores.drop_last() =~= given);
                assert(scores[given.len() as int] == score);
                assert(after.quality(id) == old_quality.with_score(score, ctx.sequence));
                law_average_moves_towards_the_score(old_quality, score, ctx.sequence);
                lemma_mean_fits(old_quality.average_score as int, count, score as int);
                let mean = total / (count + 1);
                assert(mean * (count + 1) <= total) by (nonlinear_arith)
                    requires
                        mean == total / (count + 1),
                        count >= 0,
                ;
            },
            _ => {
                assert(scores == given);
                assert(after.quality(id) == before.quality(id));
            },
        }
    }
}

/// A curator counts once among those who scored a dataset, with the latest
/// score.
pub proof fn law_latest_score_stands(
    s: QualityOracleModel,
    ctx: ContextModel,
    submission: Submission,
)
    requires
        sound(s),
        s.quality(submission.dataset_id).attestation_count < u32::MAX,
        s.attest(ctx, submission).answer is Ok,
    ensures
        ({
            let after = s.attest(ctx, submission).state;
            let id = submission.dataset_id;
            &&& after.attestations[(id, submission.curator)].score == submission.score
            &&& after.listed(id).contains(submission.curator)
            &&& after.listed(id).no_duplicates()
        }),
{
    lemma_attest_sound(s, ctx, submission);
    let after = s.attest(ctx, submission).state;
    let id = submission.dataset_id;
    assert(list_in_order(after, id));
    assert(after.attestations.contains_key((id, submission.curator)));
}

/// A score changes nothing of any other dataset and of no curator's stake.
pub proof fn law_score_stays_with_its_dataset(
    s: QualityOracleModel,
    ctx: ContextModel,
    submission: Submission,
    other: Seq<char>,
)
    requires
        other != submission.dataset_id,
    ensures
        ({
            let after = s.attest(ctx, submission).state;
            &&& after.quality(other) == s.quality(other)
            &&& after.multiplier(other) == s.multiplier(other)
            &&& after.listed(other) == s.listed(other)
            &&& after.curators == s.curators
            &&& after.treasury == s.treasury
        }),
{
}

// Standing and stakes.

/// A registered curator may score unless banned; nobody else may.
pub proof fn law_who_may_score(s: QualityOracleModel, ctx: ContextModel, submission: Submission)
    ensures
        s.attest(ctx, submission).answer is Ok <==> {
            &&& !s.governance.paused
            &&& s.curators.contains_key(submission.curator)
            &&& s.curators[submission.curator].status != CuratorStatus::Banned
            &&& submission.score <= MAX_SCORE
        },
{
}

/// In a sound state a slash can always be computed: there is a median, and the
/// treasury can take what a curator loses.
pub proof fn law_slash_is_defined(s: QualityOracleModel, curator: Seq<char>, id: Seq<char>)
    requires
        sound(s),
        s.unfit_for_slash(curator, id) is None,
    ensures
        has_median(s.scores(id)),
        median(s.scores(id)) <= MAX_SCORE,
        s.curators[curator].can_pay(s.treasury),
        s.slash_fits(curator, id),
{
    let scores = s.scores(id);
    assert(list_in_order(s, id));
    assert forall|i: int| 0 <= i < scores.len() implies 0 <= #[trigger] scores[i] <= MAX_SCORE by {
        assert(s.attestations.contains_key((id, s.attesters[id][i])));
    }
    law_median_within(scores, 0, MAX_SCORE);
    lemma_ascending_keeps(scores);
    let mid = scores.len() as int / 2;
    if scores.len() % 2 == 0 {
        let sorted = crate::quality_oracle::median::ascending(scores);
        assert(scores.contains(sorted[mid - 1]));
        assert(scores.contains(sorted[mid]));
    }
    lemma_stakes_not_negative(s.curators);
    let registered = s.curators.dom().len();
    assert(registered * MIN_CURATOR_STAKE <= 0x1_ffff_fffe * 100_000_000) by (nonlinear_arith)
        requires
            registered <= 0x1_ffff_fffe,
            MIN_CURATOR_STAKE == 100_000_000,
    ;
}

proof fn lemma_stakes_not_negative(curators: Map<Seq<char>, CuratorState>)
    requires
        curators.dom().finite(),
        forall|who: Seq<char>| #[trigger]
            curators.contains_key(who) ==> curators[who].stake == stake_at(curators[who].status),
    ensures
        sum_over(curators, stake_of()) >= 0,
    decreases curators.dom().len(),
{
    if curators.dom().len() > 0 {
        let key = curators.dom().choose();
        let rest = curators.remove(key);
        assert(curators.contains_key(key));
        assert(rest.dom() =~= curators.dom().remove(key));
        assert forall|who: Seq<char>| #[trigger] rest.contains_key(who) implies rest[who].stake
            == stake_at(rest[who].status) by {
            assert(curators.contains_key(who));
        }
        lemma_stakes_not_negative(rest);
    }
}

/// A curator is slashed only for a score more than thirty points off the
/// median, and only by the admin, who signs.
pub proof fn law_slash_needs_an_outlier(s: QualityOracleModel, curator: Seq<char>, id: Seq<char>)
    requires
        s.slash(curator, id).answer is Ok,
    ensures
        s.deviation(curator, id) > SLASH_DEVIATION_THRESHOLD,
        s.slash(curator, id).effects[0] == EffectModel::Authorize(s.governance.admin->0),
{
}

/// Whoever scored a dataset alone cannot be slashed for it.
pub proof fn law_alone_is_the_consensus(s: QualityOracleModel, curator: Seq<char>, id: Seq<char>)
    requires
        sound(s),
        s.listed(id) == seq![curator],
    ensures
        s.slash(curator, id).answer is Err,
{
    if s.unfit_for_slash(curator, id) is None {
        let scores = s.scores(id);
        let score = s.attestations[(id, curator)].score;
        assert(s.attesters[id][0] == curator);
        assert(scores[0] == score);
        law_median_within(scores, score, score);
    }
}

/// A curator stays registered. Standing and stake change only by a slash: one
/// step down, and a fifth of the stake to the treasury. A banned curator stays
/// banned.
pub proof fn law_standing_only_worsens(
    s: QualityOracleModel,
    ctx: ContextModel,
    request: Request,
    curator: Seq<char>,
)
    requires
        sound(s),
        s.curators.contains_key(curator),
    ensures
        ({
            let after = step(s, ctx, request).state;
            let old_state = s.curators[curator];
            let new_state = after.curators[curator];
            &&& after.curators.contains_key(curator)
            &&& new_state == old_state || {
                &&& request matches Request::Slash { curator: slashed, .. } && slashed == curator
                &&& old_state.status != CuratorStatus::Banned
                &&& new_state.status == old_state.status.worse()
                &&& new_state.stake == old_state.stake - old_state.stake / 5
                &&& after.treasury == s.treasury + old_state.stake / 5
            }
        }),
{
    if let Request::Slash { curator: slashed, dataset_id } = request {
        if s.slash_fault(slashed, dataset_id) is None {
            law_slash_is_defined(s, slashed, dataset_id);
            assert(s.curators[slashed].slash() == s.curators[slashed].stake / 5);
        }
    }
}

/// Two slashes ban a curator who registered in good standing, and leave them
/// with four fifths of four fifths of the stake.
pub proof fn law_two_slashes_ban(
    s: QualityOracleModel,
    curator: Seq<char>,
    first: Seq<char>,
    second: Seq<char>,
)
    requires
        sound(s),
        s.curators.contains_key(curator),
        s.curators[curator].status == CuratorStatus::Active,
        s.slash(curator, first).answer is Ok,
        s.slash(curator, first).state.slash(curator, second).answer is Ok,
    ensures
        ({
            let warned = s.slash(curator, first).state;
            let banned = warned.slash(curator, second).state;
            &&& warned.curators[curator] == (CuratorState {
                stake: 80_000_000,
                status: CuratorStatus::SlashWarning,
            })
            &&& banned.curators[curator] == (CuratorState {
                stake: 64_000_000,
                status: CuratorStatus::Banned,
            })
            &&& banned.treasury == s.treasury + 36_000_000
        }),
{
    let warned = s.slash(curator, first).state;
    law_slash_is_defined(s, curator, first);
    lemma_slash_sound(s, curator, first);
    law_slash_is_defined(warned, curator, second);
}

/// Nothing is lost: the treasury and all stakes together are what all curators
/// staked, who are those of the count as long as that is not started over.
pub proof fn law_stakes_are_conserved(s: QualityOracleModel)
    requires
        sound(s),
    ensures
        s.treasury + sum_over(s.curators, stake_of()) == s.curators.dom().len() * MIN_CURATOR_STAKE,
        counts_all(s) ==> s.treasury + sum_over(s.curators, stake_of()) == s.curator_count
            * MIN_CURATOR_STAKE,
        s.treasury >= 0,
{
}

// Lifetimes.

/// Every record that a request writes is kept for the full window.
pub proof fn law_writes_are_kept(
    s: QualityOracleModel,
    ctx: ContextModel,
    request: Request,
    who: Seq<char>,
    id: Seq<char>,
)
    ensures
        ({
            let outcome = step(s, ctx, request);
            let after = outcome.state;
            &&& after.curators.contains_key(who) && !(s.curators.contains_key(who)
                && s.curators[who] == after.curators[who]) ==> outcome.effects.contains(
                keep(KeyModel::Curator(who)),
            )
            &&& after.attestations.contains_key((id, who)) && !(s.attestations.contains_key(
                (id, who),
            ) && s.attestations[(id, who)] == after.attestations[(id, who)])
                ==> outcome.effects.contains(keep(KeyModel::Attestation(id, who)))
            &&& after.attesters.contains_key(id) && !(s.attesters.contains_key(id)
                && s.attesters[id] == after.attesters[id]) ==> outcome.effects.contains(
                keep(KeyModel::Attesters(id)),
            )
            &&& after.qualities.contains_key(id) && !(s.qualities.contains_key(id)
                && s.qualities[id] == after.qualities[id]) ==> outcome.effects.contains(
                keep(KeyModel::Quality(id)),
            )
        }),
{
    let fx = step(s, ctx, request).effects;
    match request {
        Request::Register { curator } => {
            if s.register(curator).answer is Ok {
                assert(fx[1] == keep(KeyModel::Curator(curator)));
            }
        },
        Request::Attest { submission } => {
            if s.attest_fault(submission) is None {
                let dataset = submission.dataset_id;
                assert(fx[1] == keep(KeyModel::Attestation(dataset, submission.curator)));
                assert(fx[2] == keep(KeyModel::Attesters(dataset)));
                assert(fx[3] == keep(KeyModel::Quality(dataset)));
            }
        },
        Request::Slash { curator, dataset_id } => {
            if s.slash_fault(curator, dataset_id) is None {
                assert(fx[1] == keep(KeyModel::Curator(curator)));
            }
        },
        _ => {},
    }
}

/// A renewal keeps the aggregate of a dataset and changes nothing.
pub proof fn law_renewal_changes_nothing(s: QualityOracleModel, id: Seq<char>)
    ensures
        s.renew(id).state == s,
        s.qualities.contains_key(id) ==> s.renew(id).effects == seq![keep(KeyModel::Quality(id))],
{
}

} // verus!
