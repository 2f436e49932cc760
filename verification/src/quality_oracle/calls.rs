//! What each call to the oracle does, told by the call, by what was stored
//! before it, and by what it answers, stores and asks of the host.

use crate::governance::{GovernanceError, GovernanceModel, GovernanceOutcome};
use crate::host::{keep, views, ContextModel, EffectModel, KeyModel, ValueModel};
use crate::quality_oracle::median::{has_place, law_median_is_in_the_middle};
use crate::quality_oracle::{lemma_mean_fits, lifted_answer, multiplier_of, tier_of, AttestationKey,
    Attesters, CuratorState, CuratorStatus, DatasetQuality, Error, QualityAttestation,
    QualityModel, QualityOracle, QualityOracleModel, QualityTier, Submission};
use vstd::prelude::*;

verus! {

// Records.

/// An attestation is seen field by field.
pub proof fn law_attestation_view(x: QualityAttestation)
    ensures
        x@.dataset_id == x.dataset_id@,
        x@.curator == x.curator@,
        x@.score == x.score,
        x@.rubric_hash == x.rubric_hash@,
        x@.ledger == x.ledger,
{
}

/// An aggregate is seen field by field.
pub proof fn law_quality_view(x: DatasetQuality)
    ensures
        x@.dataset_id == x.dataset_id@,
        x@.average_score == x.average_score,
        x@.attestation_count == x.attestation_count,
        x@.last_updated_ledger == x.last_updated_ledger,
        x@.tier == x.tier,
{
}

/// The oracle is seen field by field.
pub proof fn law_oracle_view(x: QualityOracle)
    ensures
        x@.governance == x.governance@,
        x@.curator_count == x.curator_count,
        x@.treasury == x.treasury,
        x@.curators == x.curators@,
        x@.attestations == x.attestations@,
        x@.attesters == x.attesters@,
        x@.qualities == x.qualities@,
{
}

/// A curator's state is seen as it is, a key as its parts, and a list by its
/// items.
pub proof fn law_plain_views(state: CuratorState, key: AttestationKey, list: Attesters)
    ensures
        state@ == state,
        key@.0 == key.dataset_id@,
        key@.1 == key.curator@,
        list@ == views(list.list@),
{
}

/// A new oracle has no curator, no score, an empty treasury and no admin.
pub proof fn law_new_oracle()
    ensures
        QualityOracleModel::fresh().governance == GovernanceModel::fresh(),
        QualityOracleModel::fresh().curator_count == 0,
        QualityOracleModel::fresh().treasury == 0,
        forall|who: Seq<char>| !#[trigger] QualityOracleModel::fresh().curators.contains_key(who),
        forall|key: (Seq<char>, Seq<char>)| !#[trigger]
            QualityOracleModel::fresh().attestations.contains_key(key),
        forall|id: Seq<char>| !#[trigger] QualityOracleModel::fresh().attesters.contains_key(id),
        forall|id: Seq<char>| !#[trigger] QualityOracleModel::fresh().qualities.contains_key(id),
{
}

/// The number and the words of each error.
pub proof fn law_errors_are_told_apart(e: Error)
    ensures
        1 <= e.spec_code() <= 16,
        e.spec_code() == 1 <==> e == Error::AlreadyInitialized,
        e.spec_code() == 2 <==> e == Error::NotInitialized,
        e.spec_code() == 3 <==> e == Error::NoAdminProposalPending,
        e.spec_code() == 4 <==> e == Error::CuratorAlreadyRegistered,
        e.spec_code() == 5 <==> e == Error::CuratorNotRegistered,
        e.spec_code() == 6 <==> e == Error::CuratorIsBanned,
        e.spec_code() == 7 <==> e == Error::ScoreOutOfRange,
        e.spec_code() == 8 <==> e == Error::NoQualityData,
        e.spec_code() == 9 <==> e == Error::CuratorAlreadyBanned,
        e.spec_code() == 10 <==> e == Error::NoAttestationOfCurator,
        e.spec_code() == 11 <==> e == Error::NoAttestationsForDataset,
        e.spec_code() == 12 <==> e == Error::MissingAttestation,
        e.spec_code() == 13 <==> e == Error::WithinTolerance,
        e.spec_code() == 14 <==> e == Error::ContractPaused,
        e.spec_code() == 15 <==> e == Error::AlreadyPaused,
        e.spec_code() == 16 <==> e == Error::NotPaused,
        Error::AlreadyInitialized.spec_message() == "already initialized"@,
        Error::NotInitialized.spec_message() == "not initialized"@,
        Error::NoAdminProposalPending.spec_message() == "no admin proposal pending"@,
        Error::CuratorAlreadyRegistered.spec_message() == "curator already registered"@,
        Error::CuratorNotRegistered.spec_message() == "curator not registered"@,
        Error::CuratorIsBanned.spec_message() == "curator is banned"@,
        Error::ScoreOutOfRange.spec_message() == "score must be 0-100"@,
        Error::NoQualityData.spec_message() == "no quality data for dataset"@,
        Error::CuratorAlreadyBanned.spec_message() == "curator already banned"@,
        Error::NoAttestationOfCurator.spec_message() == "curator has no attestation for this dataset"@,
        Error::NoAttestationsForDataset.spec_message() == "no attestations for dataset"@,
        Error::MissingAttestation.spec_message() == "missing attestation for listed attester"@,
        Error::WithinTolerance.spec_message() == "attestation within consensus tolerance, cannot slash"@,
        Error::ContractPaused.spec_message() == "contract paused"@,
        Error::AlreadyPaused.spec_message() == "already paused"@,
        Error::NotPaused.spec_message() == "not paused"@,
{
}

/// What the admin's side answers is passed on: a refusal under its own name.
pub proof fn law_answers_are_passed_on(e: GovernanceError)
    ensures
        lifted_answer(Ok(())) == Ok::<(), Error>(()),
        lifted_answer(Err(e)) is Err,
        lifted_answer(Err(e)) == Err::<(), Error>(Error::AlreadyInitialized) <==> e
            == GovernanceError::AlreadyInitialized,
        lifted_answer(Err(e)) == Err::<(), Error>(Error::NotInitialized) <==> e
            == GovernanceError::NotInitialized,
        lifted_answer(Err(e)) == Err::<(), Error>(Error::NoAdminProposalPending) <==> e
            == GovernanceError::NoAdminProposalPending,
        lifted_answer(Err(e)) == Err::<(), Error>(Error::AlreadyPaused) <==> e
            == GovernanceError::AlreadyPaused,
        lifted_answer(Err(e)) == Err::<(), Error>(Error::NotPaused) <==> e
            == GovernanceError::NotPaused,
{
}

/// The admin's side changes who runs the oracle and nothing else; only the
/// first initialization starts the count of curators.
pub proof fn law_admin_side(s: QualityOracleModel, outcome: GovernanceOutcome, admin: Seq<char>)
    ensures
        s.governed(outcome).answer == lifted_answer(outcome.answer),
        s.governed(outcome).effects == outcome.effects,
        s.governed(outcome).state.governance == outcome.state,
        s.governed(outcome).state.curator_count == s.curator_count,
        only_governance_and_count(s, s.governed(outcome).state),
        s.governance.admin is Some ==> s.initialize(admin).answer == Err::<(), Error>(
            Error::AlreadyInitialized,
        ) && s.initialize(admin).state == s && s.initialize(admin).effects.len() == 0,
        s.governance.admin is None ==> {
            &&& s.initialize(admin).answer is Ok
            &&& s.initialize(admin).effects == seq![EffectModel::Authorize(admin)]
            &&& s.initialize(admin).state.governance.admin == Some(admin)
            &&& s.initialize(admin).state.governance.proposed == s.governance.proposed
            &&& s.initialize(admin).state.governance.paused == s.governance.paused
            &&& s.initialize(admin).state.curator_count == 0
            &&& only_governance_and_count(s, s.initialize(admin).state)
        },
{
}

/// Whether stakes, scores and the treasury are the same in both.
pub open spec fn only_governance_and_count(
    s: QualityOracleModel,
    after: QualityOracleModel,
) -> bool {
    &&& after.treasury == s.treasury
    &&& after.curators == s.curators
    &&& after.attestations == s.attestations
    &&& after.attesters == s.attesters
    &&& after.qualities == s.qualities
}

// Tiers.

/// Where each tier starts and ends, what it is called, and what it multiplies
/// royalties by.
pub proof fn law_tiers(score: u32)
    ensures
        tier_of(score) == QualityTier::Unrated <==> score == 0,
        tier_of(score) == QualityTier::Bronze <==> 1 <= score <= 39,
        tier_of(score) == QualityTier::Silver <==> 40 <= score <= 69,
        tier_of(score) == QualityTier::Gold <==> 70 <= score <= 84,
        tier_of(score) == QualityTier::Platinum <==> 85 <= score,
        QualityTier::Unrated.spec_name() == "Unrated"@,
        QualityTier::Bronze.spec_name() == "Bronze"@,
        QualityTier::Silver.spec_name() == "Silver"@,
        QualityTier::Gold.spec_name() == "Gold"@,
        QualityTier::Platinum.spec_name() == "Platinum"@,
        multiplier_of(QualityTier::Unrated) == 10_000,
        multiplier_of(QualityTier::Bronze) == 7_500,
        multiplier_of(QualityTier::Silver) == 10_000,
        multiplier_of(QualityTier::Gold) == 12_500,
        multiplier_of(QualityTier::Platinum) == 15_000,
{
}

/// What each standing is called, and which comes after which.
pub proof fn law_standings()
    ensures
        CuratorStatus::Active.spec_name() == "Active"@,
        CuratorStatus::SlashWarning.spec_name() == "SlashWarning"@,
        CuratorStatus::Banned.spec_name() == "Banned"@,
        CuratorStatus::Active.worse() == CuratorStatus::SlashWarning,
        CuratorStatus::SlashWarning.worse() == CuratorStatus::Banned,
        CuratorStatus::Banned.worse() == CuratorStatus::Banned,
{
}

/// A dataset's royalties are multiplied as its tier says, and by one where it
/// has no score.
pub proof fn law_multiplier(s: QualityOracleModel, id: Seq<char>)
    ensures
        !s.qualities.contains_key(id) ==> s.multiplier(id) == 10_000,
        s.qualities.contains_key(id) ==> match s.qualities[id].tier {
            QualityTier::Platinum => s.multiplier(id) == 15_000,
            QualityTier::Gold => s.multiplier(id) == 12_500,
            QualityTier::Silver => s.multiplier(id) == 10_000,
            QualityTier::Bronze => s.multiplier(id) == 7_500,
            QualityTier::Unrated => s.multiplier(id) == 10_000,
        },
{
}

// Curators.

/// Anyone registers once, under their own signature, in good standing and with
/// a hundred million stroops at stake; no other curator is touched.
pub proof fn law_registration(s: QualityOracleModel, curator: Seq<char>)
    requires
        s.curator_count < u32::MAX,
    ensures
        ({
            let outcome = s.register(curator);
            let after = outcome.state;
            if s.governance.paused {
                &&& outcome.answer == Err::<(), Error>(Error::ContractPaused)
                &&& after == s
                &&& outcome.effects.len() == 0
            } else if s.curators.contains_key(curator) {
                &&& outcome.answer == Err::<(), Error>(Error::CuratorAlreadyRegistered)
                &&& after == s
                &&& outcome.effects == seq![EffectModel::Authorize(curator)]
            } else {
                &&& outcome.answer is Ok
                &&& after.curators.contains_key(curator)
                &&& after.curators[curator].stake == 100_000_000
                &&& after.curators[curator].status == CuratorStatus::Active
                &&& after.curators == s.curators.insert(curator, after.curators[curator])
                &&& after.curator_count == s.curator_count + 1
                &&& after.treasury == s.treasury
                &&& after.attestations == s.attestations
                &&& after.attesters == s.attesters
                &&& after.qualities == s.qualities
                &&& after.governance == s.governance
                &&& outcome.effects == seq![
                    EffectModel::Authorize(curator),
                    keep(KeyModel::Curator(curator)),
                    EffectModel::Publish {
                        group: "oracle"@,
                        name: "curator"@,
                        data: seq![ValueModel::Account(curator)],
                    },
                ]
            }
        }),
        s.register(curator).answer is Ok <==> !s.governance.paused && !s.curators.contains_key(
            curator,
        ),
{
}

// Scores.

/// What is on record of a dataset's scores: nothing where it has none.
pub open spec fn on_record(s: QualityOracleModel, id: Seq<char>) -> QualityModel {
    if s.qualities.contains_key(id) {
        s.qualities[id]
    } else {
        QualityModel {
            dataset_id: id,
            average_score: 0,
            attestation_count: 0,
            last_updated_ledger: 0,
            tier: QualityTier::Unrated,
        }
    }
}

/// A dataset's aggregate is what is on record, and its list those who are
/// listed, be it nobody.
pub proof fn law_what_is_known(s: QualityOracleModel, id: Seq<char>)
    ensures
        s.quality(id) == on_record(s, id),
        s.attesters.contains_key(id) ==> s.listed(id) == s.attesters[id],
        !s.attesters.contains_key(id) ==> s.listed(id).len() == 0,
{
}

/// A score is taken from a registered curator who is not banned, up to a
/// hundred; the first of these that is not so is what the caller is told.
pub proof fn law_when_a_score_is_taken(
    s: QualityOracleModel,
    ctx: ContextModel,
    submission: Submission,
)
    ensures
        ({
            let outcome = s.attest(ctx, submission);
            let who = submission.curator;
            &&& if s.governance.paused {
                outcome.answer == Err::<(), Error>(Error::ContractPaused)
            } else if !s.curators.contains_key(who) {
                outcome.answer == Err::<(), Error>(Error::CuratorNotRegistered)
            } else if s.curators[who].status == CuratorStatus::Banned {
                outcome.answer == Err::<(), Error>(Error::CuratorIsBanned)
            } else if submission.score > 100 {
                outcome.answer == Err::<(), Error>(Error::ScoreOutOfRange)
            } else {
                outcome.answer is Ok
            }
            &&& outcome.answer is Err ==> outcome.state == s
            &&& outcome.answer is Err && s.governance.paused ==> outcome.effects.len() == 0
            &&& outcome.answer is Err && !s.governance.paused ==> outcome.effects == seq![
                EffectModel::Authorize(who),
            ]
            &&& s.attest_fault(submission) is None <==> outcome.answer is Ok
        }),
{
}

/// A score is stored as it was given, field by field, and its curator is listed
/// for the dataset, last where they were not yet; no other score and no other
/// list is touched, and neither are stakes.
pub proof fn law_score_is_stored_as_given(
    s: QualityOracleModel,
    ctx: ContextModel,
    submission: Submission,
)
    requires
        s.attest(ctx, submission).answer is Ok,
    ensures
        ({
            let after = s.attest(ctx, submission).state;
            let id = submission.dataset_id;
            let who = submission.curator;
            let stored = after.attestations[(id, who)];
            let before = if s.attesters.contains_key(id) {
                s.attesters[id]
            } else {
                seq![]
            };
            &&& stored.dataset_id == id
            &&& stored.curator == who
            &&& stored.score == submission.score
            &&& stored.rubric_hash == submission.rubric_hash
            &&& stored.ledger == ctx.sequence
            &&& after.attestations == s.attestations.insert((id, who), stored)
            &&& before.contains(who) ==> after.attesters[id] == before
            &&& !before.contains(who) ==> after.attesters[id] == before.push(who)
            &&& after.attesters == s.attesters.insert(id, after.attesters[id])
            &&& after.qualities == s.qualities.insert(id, after.qualities[id])
            &&& after.curators == s.curators
            &&& after.curator_count == s.curator_count
            &&& after.treasury == s.treasury
            &&& after.governance == s.governance
        }),
{
}

/// The new average is that of the old one, counted as often as there were
/// scores, and the new score, rounded down; it decides the tier.
pub proof fn law_score_moves_the_average(
    s: QualityOracleModel,
    ctx: ContextModel,
    submission: Submission,
)
    requires
        s.attest(ctx, submission).answer is Ok,
        on_record(s, submission.dataset_id).attestation_count < u32::MAX,
    ensures
        ({
            let id = submission.dataset_id;
            let was = on_record(s, id);
            let now = s.attest(ctx, submission).state.qualities[id];
            let n = was.attestation_count as int;
            let sum = was.average_score * n + submission.score;
            &&& now.dataset_id == was.dataset_id
            &&& now.attestation_count == n + 1
            &&& now.average_score * (n + 1) <= sum < (now.average_score + 1) * (n + 1)
            &&& now.last_updated_ledger == ctx.sequence
            &&& now.tier == QualityTier::Unrated <==> now.average_score == 0
            &&& now.tier == QualityTier::Bronze <==> 1 <= now.average_score <= 39
            &&& now.tier == QualityTier::Silver <==> 40 <= now.average_score <= 69
            &&& now.tier == QualityTier::Gold <==> 70 <= now.average_score <= 84
            &&& now.tier == QualityTier::Platinum <==> 85 <= now.average_score
        }),
{
    let id = submission.dataset_id;
    let was = on_record(s, id);
    let n = was.attestation_count as int;
    let sum = was.average_score * n + submission.score;
    lemma_mean_fits(was.average_score as int, n, submission.score as int);
    let mean = sum / (n + 1);
    assert(mean * (n + 1) <= sum < (mean + 1) * (n + 1)) by (nonlinear_arith)
        requires
            mean == sum / (n + 1),
            n >= 0,
    ;
    assert(s.attest(ctx, submission).state.qualities[id].average_score == mean);
}

/// A score takes its curator's signature, keeps all that it writes, and is
/// announced with the tier that came of it.
pub proof fn law_score_is_announced(
    s: QualityOracleModel,
    ctx: ContextModel,
    submission: Submission,
)
    requires
        s.attest(ctx, submission).answer is Ok,
    ensures
        ({
            let outcome = s.attest(ctx, submission);
            let id = submission.dataset_id;
            let who = submission.curator;
            let tier = match outcome.state.qualities[id].tier {
                QualityTier::Unrated => "Unrated"@,
                QualityTier::Bronze => "Bronze"@,
                QualityTier::Silver => "Silver"@,
                QualityTier::Gold => "Gold"@,
                QualityTier::Platinum => "Platinum"@,
            };
            outcome.effects == seq![
                EffectModel::Authorize(who),
                keep(KeyModel::Attestation(id, who)),
                keep(KeyModel::Attesters(id)),
                keep(KeyModel::Quality(id)),
                EffectModel::Publish {
                    group: "oracle"@,
                    name: "attested"@,
                    data: seq![
                        ValueModel::Text(id),
                        ValueModel::Account(who),
                        ValueModel::U32(submission.score),
                        ValueModel::Variant(tier),
                    ],
                },
            ]
        }),
{
}

// Slashing.

/// Whether `scores` are the latest scores of those who are listed for a
/// dataset, in their order.
pub open spec fn are_scores_of(scores: Seq<u32>, s: QualityOracleModel, id: Seq<char>) -> bool {
    &&& scores.len() == s.attesters[id].len()
    &&& forall|i: int|
        0 <= i < scores.len() ==> #[trigger] scores[i] == s.attestations[(
            id,
            s.attesters[id][i],
        )].score
}

/// Whether everyone who is listed for a dataset has a score for it.
pub open spec fn everyone_scored(s: QualityOracleModel, id: Seq<char>) -> bool {
    forall|i: int|
        0 <= i < s.attesters[id].len() ==> s.attestations.contains_key(
            (id, #[trigger] s.attesters[id][i]),
        )
}

/// The scores that are compared are the latest of those who are listed.
pub proof fn law_scores_compared(s: QualityOracleModel, id: Seq<char>, scores: Seq<u32>)
    ensures
        are_scores_of(s.scores(id), s, id),
        are_scores_of(scores, s, id) ==> scores == s.scores(id),
        s.all_scored(id) == everyone_scored(s, id),
{
    if are_scores_of(scores, s, id) {
        assert(scores =~= s.scores(id));
    }
}

/// Whether a curator can be compared with others at all: the oracle is live and
/// has an admin, the curator is registered and not banned and scored the
/// dataset, and all who are listed for it did.
pub open spec fn comparable(s: QualityOracleModel, curator: Seq<char>, id: Seq<char>) -> bool {
    &&& !s.governance.paused
    &&& s.governance.admin is Some
    &&& s.curators.contains_key(curator)
    &&& s.curators[curator].status != CuratorStatus::Banned
    &&& s.attestations.contains_key((id, curator))
    &&& s.attesters.contains_key(id)
    &&& everyone_scored(s, id)
}

/// Whether a score is more than thirty off a consensus, on either side.
pub open spec fn is_off(score: u32, consensus: int) -> bool {
    score > consensus + 30 || score < consensus - 30
}

/// A curator who can be compared is slashed exactly where their score is more
/// than thirty off the middle of all scores of the dataset, on either side:
/// the mean, rounded down, of those at the two middle places.
pub proof fn law_slashed_when_far_off(
    s: QualityOracleModel,
    curator: Seq<char>,
    id: Seq<char>,
    scores: Seq<u32>,
    low: u32,
    high: u32,
)
    requires
        are_scores_of(scores, s, id),
        scores.len() > 0,
        has_place(scores, low, (scores.len() - 1) / 2),
        has_place(scores, high, scores.len() as int / 2),
    ensures
        ({
            let outcome = s.slash(curator, id);
            let score = s.attestations[(id, curator)].score;
            let consensus = (low + high) / 2;
            &&& outcome.answer is Ok <==> comparable(s, curator, id) && is_off(score, consensus)
            &&& comparable(s, curator, id) && !is_off(score, consensus) ==> outcome.answer == Err::<
                (),
                Error,
            >(Error::WithinTolerance)
            &&& s.slash_fits(curator, id) <==> {
                let stake = s.curators[curator].stake;
                &&& comparable(s, curator, id) ==> scores.len() % 2 == 1 || low + high <= u32::MAX
                &&& outcome.answer is Ok ==> {
                    &&& 0 <= stake
                    &&& stake * 2_000 <= i128::MAX
                    &&& s.treasury + stake / 5 <= i128::MAX
                }
            }
        }),
{
    law_scores_compared(s, id, scores);
    law_median_is_in_the_middle(scores, low, high);
    assert(s.unfit_for_slash(curator, id) is None <==> comparable(s, curator, id));
    assert(s.curators[curator].slash() == s.curators[curator].stake / 5);
}

/// A slash is refused for the first of these reasons that holds, and then
/// changes nothing. Where nobody is listed, there is nothing to compare.
pub proof fn law_reasons_not_to_slash(s: QualityOracleModel, curator: Seq<char>, id: Seq<char>)
    ensures
        ({
            let outcome = s.slash(curator, id);
            &&& if s.governance.paused {
                outcome.answer == Err::<(), Error>(Error::ContractPaused)
            } else if s.governance.admin is None {
                outcome.answer == Err::<(), Error>(Error::NotInitialized)
            } else if !s.curators.contains_key(curator) {
                outcome.answer == Err::<(), Error>(Error::CuratorNotRegistered)
            } else if s.curators[curator].status == CuratorStatus::Banned {
                outcome.answer == Err::<(), Error>(Error::CuratorAlreadyBanned)
            } else if !s.attestations.contains_key((id, curator)) {
                outcome.answer == Err::<(), Error>(Error::NoAttestationOfCurator)
            } else if !s.attesters.contains_key(id) {
                outcome.answer == Err::<(), Error>(Error::NoAttestationsForDataset)
            } else if !everyone_scored(s, id) {
                outcome.answer == Err::<(), Error>(Error::MissingAttestation)
            } else {
                comparable(s, curator, id)
            }
            &&& outcome.answer is Err ==> outcome.state == s
            &&& outcome.answer is Err ==> outcome.effects == if s.governance.paused
                || s.governance.admin is None {
                seq![]
            } else {
                seq![EffectModel::Authorize(s.governance.admin->0)]
            }
            &&& !comparable(s, curator, id) ==> s.slash_fits(curator, id)
            &&& comparable(s, curator, id) && s.attesters[id].len() == 0 ==> !s.slash_fits(
                curator,
                id,
            )
        }),
{
    law_scores_compared(s, id, s.scores(id));
}

/// A slash takes a fifth of the stake, rounded down, to the treasury, and one
/// step of standing: a warning first, then a ban. It touches nobody else, takes
/// the admin's signature, and is announced.
pub proof fn law_what_a_slash_takes(s: QualityOracleModel, curator: Seq<char>, id: Seq<char>)
    requires
        s.slash(curator, id).answer is Ok,
        s.slash_fits(curator, id),
    ensures
        ({
            let outcome = s.slash(curator, id);
            let after = outcome.state;
            let was = s.curators[curator];
            let now = after.curators[curator];
            let taken = (was.stake - now.stake) as int;
            &&& 0 <= taken
            &&& 5 * taken <= was.stake < 5 * (taken + 1)
            &&& after.treasury == s.treasury + taken
            &&& was.status == CuratorStatus::Active ==> now.status == CuratorStatus::SlashWarning
            &&& was.status == CuratorStatus::SlashWarning ==> now.status == CuratorStatus::Banned
            &&& after.curators == s.curators.insert(curator, now)
            &&& after.curator_count == s.curator_count
            &&& after.attestations == s.attestations
            &&& after.attesters == s.attesters
            &&& after.qualities == s.qualities
            &&& after.governance == s.governance
            &&& outcome.effects == seq![
                EffectModel::Authorize(s.governance.admin->0),
                keep(KeyModel::Curator(curator)),
                EffectModel::Publish {
                    group: "oracle"@,
                    name: "slashed"@,
                    data: seq![
                        ValueModel::Account(curator),
                        ValueModel::Text(id),
                        ValueModel::I128(taken as i128),
                        ValueModel::Variant(
                            if now.status == CuratorStatus::Banned {
                                "Banned"@
                            } else {
                                "SlashWarning"@
                            },
                        ),
                    ],
                },
            ]
        }),
{
    assert(s.slash_fault(curator, id) is None);
    assert(s.curators[curator].slash() == s.curators[curator].stake / 5);
}

/// A renewal keeps the aggregate of a dataset that has one, asks nobody, and
/// changes nothing.
pub proof fn law_renewal(s: QualityOracleModel, id: Seq<char>)
    ensures
        s.renew(id).state == s,
        !s.qualities.contains_key(id) ==> s.renew(id).answer == Err::<(), Error>(
            Error::NoQualityData,
        ) && s.renew(id).effects.len() == 0,
        s.qualities.contains_key(id) ==> s.renew(id).answer is Ok && s.renew(id).effects == seq![
            keep(KeyModel::Quality(id)),
        ],
{
}

} // verus!
