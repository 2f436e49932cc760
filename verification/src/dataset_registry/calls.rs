//! What each call to the registry does, told by the call, by what was stored
//! before it, and by what it answers, stores and asks of the host.

use crate::dataset_registry::{dataset_id, lifted_answer, named_again, share_fault, share_total,
    shares_fault, ContributorReputation, ContributorShare, Dataset, DatasetModel, DatasetRegistry,
    DatasetRegistryModel, DatasetState, Entry, Error, ReputationModel, ShareModel};
use crate::governance::{GovernanceError, GovernanceModel, GovernanceOutcome};
use crate::host::{keep, view_opt, views, ContextModel, EffectModel, KeyModel, ValueModel};
use crate::text::decimal;
use vstd::prelude::*;

verus! {

// Records.

/// A dataset is seen field by field.
pub proof fn law_dataset_view(x: Dataset)
    ensures
        x@.id == x.id@,
        x@.owner == x.owner@,
        x@.language_code == x.language_code@,
        x@.name == x.name@,
        x@.metadata_hash == x.metadata_hash@,
        x@.version == x.version,
        x@.state == x.state,
        x@.contributors == views(x.contributors@),
        x@.created_ledger == x.created_ledger,
        x@.sample_count == x.sample_count,
        x@.duration_seconds == x.duration_seconds,
        x@.commission_id == view_opt(x.commission_id),
{
}

/// A reputation is seen field by field.
pub proof fn law_reputation_view(x: ContributorReputation)
    ensures
        x@.address == x.address@,
        x@.reputation_score == x.reputation_score,
        x@.datasets_registered == x.datasets_registered,
        x@.total_royalties_stroops == x.total_royalties_stroops,
        x@.quality_average == x.quality_average,
{
}

/// The registry is seen field by field.
pub proof fn law_registry_view(x: DatasetRegistry)
    ensures
        x@.governance == x.governance@,
        x@.count == x.count,
        x@.datasets == x.datasets@,
        x@.hashes == x.hashes@,
        x@.reputations == x.reputations@,
{
}

/// A share is seen as its holder and its size.
pub proof fn law_share_view(x: ContributorShare)
    ensures
        x@.address == x.address@,
        x@.share_bps == x.share_bps,
{
}

/// A new registry has no dataset, no reputation and no admin.
pub proof fn law_new_registry()
    ensures
        DatasetRegistryModel::fresh().governance == GovernanceModel::fresh(),
        DatasetRegistryModel::fresh().count == 0,
        forall|id: Seq<char>| !#[trigger] DatasetRegistryModel::fresh().datasets.contains_key(id),
        forall|hash: Seq<u8>| !#[trigger] DatasetRegistryModel::fresh().hashes.contains_key(hash),
        forall|who: Seq<char>| !#[trigger]
            DatasetRegistryModel::fresh().reputations.contains_key(who),
{
}

/// The number and the words of each error.
pub proof fn law_errors_are_told_apart(e: Error)
    ensures
        1 <= e.spec_code() <= 21,
        e.spec_code() == 1 <==> e == Error::AlreadyInitialized,
        e.spec_code() == 2 <==> e == Error::NotInitialized,
        e.spec_code() == 3 <==> e == Error::NoAdminProposalPending,
        e.spec_code() == 4 <==> e == Error::MetadataHashCannotBeZero,
        e.spec_code() == 5 <==> e == Error::DatasetWithThisMetadataHashIsAlreadyRegistered,
        e.spec_code() == 6 <==> e == Error::DatasetMustHaveAtLeastOneContributor,
        e.spec_code() == 7 <==> e == Error::ContributorShareMustBeGreaterThanZero,
        e.spec_code() == 8 <==> e == Error::DuplicateContributorAddress,
        e.spec_code() == 9 <==> e == Error::ContributorSharesOverflow,
        e.spec_code() == 10 <==> e == Error::ContributorSharesMustSumTo10000,
        e.spec_code() == 11 <==> e == Error::NoReputationData,
        e.spec_code() == 12 <==> e == Error::DatasetNotFound,
        e.spec_code() == 13 <==> e == Error::DatasetMustBeActiveToUpdateMetadata,
        e.spec_code() == 14 <==> e == Error::MetadataHashUnchanged,
        e.spec_code() == 15 <==> e == Error::OnlyAnActiveDatasetCanBeFlaggedForReview,
        e.spec_code() == 16 <==> e == Error::OnlyADatasetUnderReviewCanBeReinstated,
        e.spec_code() == 17 <==> e == Error::OnlyTheDatasetOwnerOrAdminCanDeprecate,
        e.spec_code() == 18 <==> e == Error::DatasetIsAlreadyDeprecated,
        e.spec_code() == 19 <==> e == Error::ContractPaused,
        e.spec_code() == 20 <==> e == Error::AlreadyPaused,
        e.spec_code() == 21 <==> e == Error::NotPaused,
        Error::AlreadyInitialized.spec_message() == "already initialized"@,
        Error::NotInitialized.spec_message() == "not initialized"@,
        Error::NoAdminProposalPending.spec_message() == "no admin proposal pending"@,
        Error::MetadataHashCannotBeZero.spec_message() == "metadata hash cannot be zero"@,
        Error::DatasetWithThisMetadataHashIsAlreadyRegistered.spec_message() == "dataset with this metadata hash is already registered"@,
        Error::DatasetMustHaveAtLeastOneContributor.spec_message() == "dataset must have at least one contributor"@,
        Error::ContributorShareMustBeGreaterThanZero.spec_message() == "contributor share must be greater than zero"@,
        Error::DuplicateContributorAddress.spec_message() == "duplicate contributor address"@,
        Error::ContributorSharesOverflow.spec_message() == "contributor shares overflow"@,
        Error::ContributorSharesMustSumTo10000.spec_message() == "contributor shares must sum to 10000 bps"@,
        Error::NoReputationData.spec_message() == "no reputation data"@,
        Error::DatasetNotFound.spec_message() == "dataset not found"@,
        Error::DatasetMustBeActiveToUpdateMetadata.spec_message() == "dataset must be active to update metadata"@,
        Error::MetadataHashUnchanged.spec_message() == "metadata hash unchanged"@,
        Error::OnlyAnActiveDatasetCanBeFlaggedForReview.spec_message() == "only an active dataset can be flagged for review"@,
        Error::OnlyADatasetUnderReviewCanBeReinstated.spec_message() == "only a dataset under review can be reinstated"@,
        Error::OnlyTheDatasetOwnerOrAdminCanDeprecate.spec_message() == "only the dataset owner or admin can deprecate"@,
        Error::DatasetIsAlreadyDeprecated.spec_message() == "dataset is already deprecated"@,
        Error::ContractPaused.spec_message() == "contract paused"@,
        Error::AlreadyPaused.spec_message() == "already paused"@,
        Error::NotPaused.spec_message() == "not paused"@,
{
}

/// What the admin's side answers is passed on: a refusal under its own name.
pub proof fn law_answers_are_passed_on(e: GovernanceError)
    ensures
        lifted_answer(Ok(())) == Ok::<(), Error>(()),
        lifted_answer(Err(e)) is Err,
        lifted_answer(Err(e)) == Err::<(), Error>(Error::AlreadyInitialized) <==> e
            == GovernanceError::AlreadyInitialized,
        lifted_answer(Err(e)) == Err::<(), Error>(Error::NotInitialized) <==> e
            == GovernanceError::NotInitialized,
        lifted_answer(Err(e)) == Err::<(), Error>(Error::NoAdminProposalPending) <==> e
            == GovernanceError::NoAdminProposalPending,
        lifted_answer(Err(e)) == Err::<(), Error>(Error::AlreadyPaused) <==> e
            == GovernanceError::AlreadyPaused,
        lifted_answer(Err(e)) == Err::<(), Error>(Error::NotPaused) <==> e
            == GovernanceError::NotPaused,
{
}

/// The admin's side changes who runs the registry and nothing else; only the
/// first initialization starts the count, and keeps the contract.
pub proof fn law_admin_side(s: DatasetRegistryModel, outcome: GovernanceOutcome, admin: Seq<char>)
    ensures
        s.governed(outcome).answer == lifted_answer(outcome.answer),
        s.governed(outcome).effects == outcome.effects,
        s.governed(outcome).state.governance == outcome.state,
        s.governed(outcome).state.count == s.count,
        s.governed(outcome).state.datasets == s.datasets,
        s.governed(outcome).state.hashes == s.hashes,
        s.governed(outcome).state.reputations == s.reputations,
        s.governance.admin is Some ==> s.initialize(admin).answer == Err::<(), Error>(
            Error::AlreadyInitialized,
        ) && s.initialize(admin).state == s && s.initialize(admin).effects.len() == 0,
        s.governance.admin is None ==> {
            &&& s.initialize(admin).answer is Ok
            &&& s.initialize(admin).effects == seq![
                EffectModel::Authorize(admin),
                keep(KeyModel::Instance),
            ]
            &&& s.initialize(admin).state.governance.admin == Some(admin)
            &&& s.initialize(admin).state.governance.proposed == s.governance.proposed
            &&& s.initialize(admin).state.governance.paused == s.governance.paused
            &&& s.initialize(admin).state.count == 0
            &&& s.initialize(admin).state.datasets == s.datasets
            &&& s.initialize(admin).state.hashes == s.hashes
            &&& s.initialize(admin).state.reputations == s.reputations
        },
{
}

// Shares.

/// Adds a contributor's share.
pub open spec fn adding() -> spec_fn(int, ShareModel) -> int {
    |sum: int, share: ShareModel| sum + share.share_bps
}

/// The total runs over all shares.
pub proof fn law_share_total(shares: Seq<ShareModel>)
    ensures
        share_total(shares) == shares.fold_left(0, adding()),
    decreases shares.len(),
{
    if shares.len() > 0 {
        law_share_total(shares.drop_last());
    }
}

/// Whether the share at `at` stands up: it is not empty, its holder has no
/// other further on, and the shares up to it add up within bounds.
pub open spec fn stands_up(shares: Seq<ShareModel>, at: int) -> bool {
    &&& shares[at].share_bps > 0
    &&& forall|j: int|
        at < j < shares.len() ==> (#[trigger] shares[j]).address != shares[at].address
    &&& shares.take(at + 1).fold_left(0, adding()) <= u32::MAX
}

/// The first share that does not stand up is what is wrong with them, and its
/// emptiness counts before its holder's other share, and that before the bounds;
/// where all stand up, a total other than ten thousand is.
pub proof fn law_first_fault_counts(shares: Seq<ShareModel>, at: int)
    requires
        0 <= at <= shares.len(),
        forall|i: int| 0 <= i < at ==> #[trigger] stands_up(shares, i),
    ensures
        ({
            let fault = shares_fault(shares);
            if shares.len() == 0 {
                fault == Some(Error::DatasetMustHaveAtLeastOneContributor)
            } else if at == shares.len() {
                &&& shares.fold_left(0, adding()) != 10_000 ==> fault == Some(
                    Error::ContributorSharesMustSumTo10000,
                )
                &&& shares.fold_left(0, adding()) == 10_000 ==> fault is None
            } else if shares[at].share_bps == 0 {
                fault == Some(Error::ContributorShareMustBeGreaterThanZero)
            } else if exists|j: int|
                at < j < shares.len() && (#[trigger] shares[j]).address == shares[at].address {
                fault == Some(Error::DuplicateContributorAddress)
            } else if shares.take(at + 1).fold_left(0, adding()) > u32::MAX {
                fault == Some(Error::ContributorSharesOverflow)
            } else {
                true
            }
        }),
{
    law_share_total(shares);
    lemma_fault_from(shares, 0, at);
    if at < shares.len() {
        law_share_total(shares.take(at + 1));
    }
}

proof fn lemma_fault_from(shares: Seq<ShareModel>, from: int, at: int)
    requires
        0 <= from <= at <= shares.len(),
        forall|i: int| 0 <= i < at ==> #[trigger] stands_up(shares, i),
    ensures
        share_fault(shares, from) == share_fault(shares, at),
    decreases at - from,
{
    if from < at {
        assert(stands_up(shares, from));
        law_share_total(shares.take(from + 1));
        assert(!named_again(shares, from));
        lemma_fault_from(shares, from + 1, at);
    }
}

// Registration.

/// What is on record of someone's registrations: nothing of a newcomer's.
pub open spec fn on_record(s: DatasetRegistryModel, who: Seq<char>) -> ReputationModel {
    if s.reputations.contains_key(who) {
        s.reputations[who]
    } else {
        ReputationModel {
            address: who,
            reputation_score: 0,
            datasets_registered: 0,
            total_royalties_stroops: 0,
            quality_average: 0,
        }
    }
}

/// Someone's reputation is what is on record, and there is room for another
/// registration of theirs as long as no counter is at its end.
pub proof fn law_reputations(s: DatasetRegistryModel, who: Seq<char>)
    ensures
        s.reputation(who) == on_record(s, who),
        s.has_room(who) <==> {
            &&& s.count < u32::MAX
            &&& on_record(s, who).datasets_registered < u32::MAX
            &&& on_record(s, who).reputation_score + 50 <= u32::MAX
        },
{
}

/// A dataset is registered where the registry is live and has an admin, its
/// content has a hash that no dataset has, and nothing is wrong with its shares;
/// the first of these that is not so is what the caller is told.
pub proof fn law_when_a_dataset_is_registered(
    s: DatasetRegistryModel,
    ctx: ContextModel,
    entry: Entry,
)
    ensures
        ({
            let outcome = s.register(ctx, entry);
            let blank = entry.metadata_hash.len() == 32 && forall|i: int|
                0 <= i < 32 ==> #[trigger] entry.metadata_hash[i] == 0;
            &&& if s.governance.paused {
                outcome.answer == Err::<Seq<char>, Error>(Error::ContractPaused)
            } else if s.governance.admin is None {
                outcome.answer == Err::<Seq<char>, Error>(Error::NotInitialized)
            } else if blank {
                outcome.answer == Err::<Seq<char>, Error>(Error::MetadataHashCannotBeZero)
            } else if s.hashes.contains_key(entry.metadata_hash) {
                outcome.answer == Err::<Seq<char>, Error>(
                    Error::DatasetWithThisMetadataHashIsAlreadyRegistered,
                )
            } else if shares_fault(entry.contributors) is Some {
                outcome.answer == Err::<Seq<char>, Error>(shares_fault(entry.contributors)->0)
            } else {
                outcome.answer is Ok
            }
            &&& outcome.answer is Err ==> outcome.state == s
            &&& outcome.answer is Err && s.governance.paused ==> outcome.effects.len() == 0
            &&& outcome.answer is Err && !s.governance.paused ==> outcome.effects == seq![
                EffectModel::Authorize(entry.owner),
            ]
            &&& s.register_fault(entry) is None <==> outcome.answer is Ok
        }),
{
    crate::host::law_zero_hash(entry.metadata_hash);
}

/// A dataset is stored as it was registered, field by field, active and in its
/// first version, under the next number; its hash leads to it, and no other
/// dataset and no other hash is touched.
pub proof fn law_registered_as_given(s: DatasetRegistryModel, ctx: ContextModel, entry: Entry)
    requires
        s.register(ctx, entry).answer is Ok,
        s.count < u32::MAX,
    ensures
        ({
            let outcome = s.register(ctx, entry);
            let id = outcome.answer->Ok_0;
            let after = outcome.state;
            let ds = after.datasets[id];
            &&& id == "ds_"@ + decimal((s.count + 1) as nat)
            &&& ds.id == id
            &&& ds.owner == entry.owner
            &&& ds.language_code == entry.language_code
            &&& ds.name == entry.name
            &&& ds.metadata_hash == entry.metadata_hash
            &&& ds.contributors == entry.contributors
            &&& ds.sample_count == entry.sample_count
            &&& ds.duration_seconds == entry.duration_seconds
            &&& ds.commission_id == entry.commission_id
            &&& ds.version == 1
            &&& ds.state == DatasetState::Active
            &&& ds.created_ledger == ctx.sequence
            &&& after.datasets == s.datasets.insert(id, ds)
            &&& after.hashes == s.hashes.insert(entry.metadata_hash, id)
            &&& after.count == s.count + 1
            &&& after.governance == s.governance
        }),
{
}

/// A registration counts for its owner and for nobody else: one dataset more,
/// and fifty points, up to a thousand.
pub proof fn law_registration_earns_reputation(
    s: DatasetRegistryModel,
    ctx: ContextModel,
    entry: Entry,
    who: Seq<char>,
)
    requires
        s.register(ctx, entry).answer is Ok,
        s.has_room(entry.owner),
    ensures
        ({
            let after = s.register(ctx, entry).state;
            let was = on_record(s, who);
            let now = on_record(after, who);
            if who == entry.owner {
                &&& after.reputations.contains_key(who)
                &&& now.datasets_registered == was.datasets_registered + 1
                &&& was.reputation_score + 50 <= 1_000 ==> now.reputation_score
                    == was.reputation_score + 50
                &&& was.reputation_score + 50 > 1_000 ==> now.reputation_score == 1_000
                &&& now.address == was.address
                &&& now.total_royalties_stroops == was.total_royalties_stroops
                &&& now.quality_average == was.quality_average
            } else {
                &&& after.reputations.contains_key(who) == s.reputations.contains_key(who)
                &&& now == was
            }
        }),
{
}

/// A registration takes the owner's signature, keeps all that it writes, and is
/// announced.
pub proof fn law_registration_is_announced(s: DatasetRegistryModel, ctx: ContextModel, entry: Entry)
    requires
        s.register(ctx, entry).answer is Ok,
    ensures
        ({
            let outcome = s.register(ctx, entry);
            let id = outcome.answer->Ok_0;
            outcome.effects == seq![
                EffectModel::Authorize(entry.owner),
                keep(KeyModel::Instance),
                keep(KeyModel::Dataset(id)),
                keep(KeyModel::HashIndex(entry.metadata_hash)),
                keep(KeyModel::Reputation(entry.owner)),
                EffectModel::Publish {
                    group: "dataset"@,
                    name: "created"@,
                    data: seq![
                        ValueModel::Text(id),
                        ValueModel::Account(entry.owner),
                        ValueModel::Text(entry.language_code),
                        ValueModel::U32(entry.sample_count),
                    ],
                },
            ]
        }),
{
}

// Updates and moves.

/// An update gives an active dataset the new hash, one version on, and changes
/// nothing else of it; the hash has to be one, another, and free.
pub proof fn law_update_gives_the_hash(s: DatasetRegistryModel, id: Seq<char>, hash: Seq<u8>)
    requires
        s.datasets.contains_key(id) ==> s.datasets[id].version < u32::MAX,
    ensures
        ({
            let outcome = s.update(id, hash);
            let was = s.datasets[id];
            let now = outcome.state.datasets[id];
            let blank = hash.len() == 32 && forall|i: int| 0 <= i < 32 ==> #[trigger] hash[i] == 0;
            &&& s.update_fault(id, hash) is None <==> outcome.answer is Ok
            &&& outcome.answer is Err ==> outcome.state == s
            &&& outcome.answer is Err && (s.governance.paused || !s.datasets.contains_key(id))
                ==> outcome.effects.len() == 0
            &&& outcome.answer is Err && !s.governance.paused && s.datasets.contains_key(id)
                ==> outcome.effects == seq![EffectModel::Authorize(was.owner)]
            &&& if s.governance.paused {
                outcome.answer == Err::<(), Error>(Error::ContractPaused)
            } else if !s.datasets.contains_key(id) {
                outcome.answer == Err::<(), Error>(Error::DatasetNotFound)
            } else if was.state != DatasetState::Active {
                outcome.answer == Err::<(), Error>(Error::DatasetMustBeActiveToUpdateMetadata)
            } else if blank {
                outcome.answer == Err::<(), Error>(Error::MetadataHashCannotBeZero)
            } else if hash == was.metadata_hash {
                outcome.answer == Err::<(), Error>(Error::MetadataHashUnchanged)
            } else if s.hashes.contains_key(hash) {
                outcome.answer == Err::<(), Error>(
                    Error::DatasetWithThisMetadataHashIsAlreadyRegistered,
                )
            } else {
                &&& outcome.answer is Ok
                &&& now.metadata_hash == hash
                &&& now.version == was.version + 1
                &&& now.state == DatasetState::Active
                &&& same_but_for_content(was, now)
                &&& outcome.state.datasets == s.datasets.insert(id, now)
                &&& outcome.state.hashes == s.hashes.remove(was.metadata_hash).insert(hash, id)
                &&& outcome.state.count == s.count
                &&& outcome.state.reputations == s.reputations
                &&& outcome.state.governance == s.governance
                &&& outcome.effects == seq![
                    EffectModel::Authorize(was.owner),
                    keep(KeyModel::HashIndex(hash)),
                    keep(KeyModel::Instance),
                    keep(KeyModel::Dataset(id)),
                    EffectModel::Publish {
                        group: "dataset"@,
                        name: "updated"@,
                        data: seq![
                            ValueModel::Text(id),
                            ValueModel::Digest(hash),
                            ValueModel::U32((was.version + 1) as u32),
                        ],
                    },
                ]
            }
        }),
{
    crate::host::law_zero_hash(hash);
}

/// Whether two records are of one dataset, be its hash, its version and its
/// state what they may.
pub open spec fn same_but_for_content(a: DatasetModel, b: DatasetModel) -> bool {
    &&& a.id == b.id
    &&& a.owner == b.owner
    &&& a.language_code == b.language_code
    &&& a.name == b.name
    &&& a.contributors == b.contributors
    &&& a.created_ledger == b.created_ledger
    &&& a.sample_count == b.sample_count
    &&& a.duration_seconds == b.duration_seconds
    &&& a.commission_id == b.commission_id
}

/// Whether all that changed from `s` to `after` is that the dataset under `id`
/// is now in `state`.
pub open spec fn only_moved(
    s: DatasetRegistryModel,
    after: DatasetRegistryModel,
    id: Seq<char>,
    state: DatasetState,
) -> bool {
    let was = s.datasets[id];
    let now = after.datasets[id];
    &&& now.state == state
    &&& now.metadata_hash == was.metadata_hash
    &&& now.version == was.version
    &&& same_but_for_content(was, now)
    &&& after.datasets == s.datasets.insert(id, now)
    &&& after.hashes == s.hashes
    &&& after.count == s.count
    &&& after.reputations == s.reputations
    &&& after.governance == s.governance
}

/// What a move that `who` signs asks of the host.
pub open spec fn told(
    effects: Seq<EffectModel>,
    who: Seq<char>,
    id: Seq<char>,
    name: Seq<char>,
) -> bool {
    effects =~= seq![
        EffectModel::Authorize(who),
        keep(KeyModel::Instance),
        keep(KeyModel::Dataset(id)),
        EffectModel::Publish { group: "dataset"@, name, data: seq![ValueModel::Text(id)] },
    ]
}

/// The admin flags an active dataset, and it is under review from then on; the
/// admin reinstates one under review, and it is active again.
pub proof fn law_review(s: DatasetRegistryModel, id: Seq<char>)
    ensures
        ({
            let flag = s.flag(id);
            let reinstate = s.reinstate(id);
            let admin = s.governance.admin->0;
            if s.governance.paused {
                &&& flag.answer == Err::<(), Error>(Error::ContractPaused)
                &&& reinstate.answer == Err::<(), Error>(Error::ContractPaused)
                &&& flag.effects.len() == 0 && reinstate.effects.len() == 0
            } else if s.governance.admin is None {
                &&& flag.answer == Err::<(), Error>(Error::NotInitialized)
                &&& reinstate.answer == Err::<(), Error>(Error::NotInitialized)
                &&& flag.effects.len() == 0 && reinstate.effects.len() == 0
            } else if !s.datasets.contains_key(id) {
                &&& flag.answer == Err::<(), Error>(Error::DatasetNotFound)
                &&& reinstate.answer == Err::<(), Error>(Error::DatasetNotFound)
                &&& flag.effects == seq![EffectModel::Authorize(admin)]
                &&& reinstate.effects == seq![EffectModel::Authorize(admin)]
            } else {
                &&& if s.datasets[id].state == DatasetState::Active {
                    &&& flag.answer is Ok
                    &&& only_moved(s, flag.state, id, DatasetState::UnderReview)
                    &&& told(flag.effects, admin, id, "flagged"@)
                } else {
                    &&& flag.answer == Err::<(), Error>(
                        Error::OnlyAnActiveDatasetCanBeFlaggedForReview,
                    )
                    &&& flag.effects == seq![EffectModel::Authorize(admin)]
                }
                &&& if s.datasets[id].state == DatasetState::UnderReview {
                    &&& reinstate.answer is Ok
                    &&& only_moved(s, reinstate.state, id, DatasetState::Active)
                    &&& told(reinstate.effects, admin, id, "reinstate"@)
                } else {
                    &&& reinstate.answer == Err::<(), Error>(
                        Error::OnlyADatasetUnderReviewCanBeReinstated,
                    )
                    &&& reinstate.effects == seq![EffectModel::Authorize(admin)]
                }
            }
        }),
        s.flag(id).answer is Err ==> s.flag(id).state == s,
        s.reinstate(id).answer is Err ==> s.reinstate(id).state == s,
{
}

/// The owner of a dataset and the admin, each under their own signature, and
/// nobody else, deprecate a dataset that is not deprecated yet.
pub proof fn law_deprecation(s: DatasetRegistryModel, id: Seq<char>, caller: Seq<char>)
    ensures
        ({
            let outcome = s.deprecate(id, caller);
            &&& outcome.answer is Err ==> outcome.state == s
            &&& outcome.answer is Err && s.governance.paused ==> outcome.effects.len() == 0
            &&& outcome.answer is Err && !s.governance.paused ==> outcome.effects == seq![
                EffectModel::Authorize(caller),
            ]
            &&& if s.governance.paused {
                outcome.answer == Err::<(), Error>(Error::ContractPaused)
            } else if !s.datasets.contains_key(id) {
                outcome.answer == Err::<(), Error>(Error::DatasetNotFound)
            } else if s.governance.admin is None {
                outcome.answer == Err::<(), Error>(Error::NotInitialized)
            } else if caller != s.datasets[id].owner && caller != s.governance.admin->0 {
                outcome.answer == Err::<(), Error>(Error::OnlyTheDatasetOwnerOrAdminCanDeprecate)
            } else if s.datasets[id].state == DatasetState::Deprecated {
                outcome.answer == Err::<(), Error>(Error::DatasetIsAlreadyDeprecated)
            } else {
                &&& outcome.answer is Ok
                &&& only_moved(s, outcome.state, id, DatasetState::Deprecated)
                &&& told(outcome.effects, caller, id, "deprecate"@)
            }
        }),
{
}

// Renewals.

/// A renewal asks nobody and changes nothing: it keeps the contract, and a
/// dataset with its hash, or a reputation.
pub proof fn law_renewals(s: DatasetRegistryModel, id: Seq<char>, who: Seq<char>)
    ensures
        s.renew_dataset(id).state == s,
        s.renew_reputation(who).state == s,
        !s.datasets.contains_key(id) ==> s.renew_dataset(id).answer == Err::<(), Error>(
            Error::DatasetNotFound,
        ) && s.renew_dataset(id).effects.len() == 0,
        s.datasets.contains_key(id) ==> {
            let hash = s.datasets[id].metadata_hash;
            &&& s.renew_dataset(id).answer is Ok
            &&& s.hashes.contains_key(hash) ==> s.renew_dataset(id).effects == seq![
                keep(KeyModel::Instance),
                keep(KeyModel::Dataset(id)),
                keep(KeyModel::HashIndex(hash)),
            ]
            &&& !s.hashes.contains_key(hash) ==> s.renew_dataset(id).effects == seq![
                keep(KeyModel::Instance),
                keep(KeyModel::Dataset(id)),
            ]
        },
        !s.reputations.contains_key(who) ==> s.renew_reputation(who).answer == Err::<(), Error>(
            Error::NoReputationData,
        ) && s.renew_reputation(who).effects.len() == 0,
        s.reputations.contains_key(who) ==> s.renew_reputation(who).answer is Ok
            && s.renew_reputation(who).effects == seq![
            keep(KeyModel::Instance),
            keep(KeyModel::Reputation(who)),
        ],
{
}

/// Datasets are numbered from one on, behind their own prefix.
pub proof fn law_ids(n: nat)
    ensures
        dataset_id(n) == "ds_"@ + decimal(n),
{
}

} // verus!
