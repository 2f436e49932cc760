//! What holds of the registry as a whole.
//!
//! A [`Request`] is any call that may change the registry or ask something of
//! the host, and [`step`] is what comes of it. The laws speak of every request
//! in every sound state.

use crate::dataset_registry::{dataset_id, share_fault, share_total, shares_fault, CallOutcome,
    DatasetModel, DatasetRegistryModel, DatasetState, Entry, Error, ReputationModel, ShareModel,
    REPUTATION_MAX, REPUTATION_STEP, TOTAL_BPS};
use crate::governance::GovernanceModel;
use crate::host::{keep, zero_hash, ContextModel, EffectModel, KeyModel, Outcome};
use crate::sums::{lemma_sum_at_most, lemma_sum_insert, sum_over};
use crate::text::lemma_numbered_injective;
use vstd::prelude::*;

verus! {

/// A call to the registry.
pub enum Request {
    Initialize { admin: Seq<char> },
    ProposeAdmin { successor: Seq<char> },
    AcceptAdmin,
    Pause,
    Unpause,
    Upgrade { hash: Seq<u8> },
    Register { entry: Entry },
    Update { id: Seq<char>, hash: Seq<u8> },
    Flag { id: Seq<char> },
    Reinstate { id: Seq<char> },
    Deprecate { id: Seq<char>, caller: Seq<char> },
    RenewDataset { id: Seq<char> },
    RenewReputation { address: Seq<char> },
}

/// What comes of a request.
pub open spec fn step(s: DatasetRegistryModel, ctx: ContextModel, request: Request) -> CallOutcome {
    match request {
        Request::Initialize { admin } => s.initialize(admin),
        Request::ProposeAdmin { successor } => s.governed(s.governance.propose(successor)),
        Request::AcceptAdmin => s.governed(s.governance.accept_proposal()),
        Request::Pause => s.governed(s.governance.pause(ctx)),
        Request::Unpause => s.governed(s.governance.unpause(ctx)),
        Request::Upgrade { hash } => s.governed(s.governance.upgrade(ctx, hash)),
        Request::Register { entry } => {
            let outcome = s.register(ctx, entry);
            Outcome {
                answer: match outcome.answer {
                    Ok(_) => Ok(()),
                    Err(e) => Err(e),
                },
                state: outcome.state,
                effects: outcome.effects,
            }
        },
        Request::Update { id, hash } => s.update(id, hash),
        Request::Flag { id } => s.flag(id),
        Request::Reinstate { id } => s.reinstate(id),
        Request::Deprecate { id, caller } => s.deprecate(id, caller),
        Request::RenewDataset { id } => s.renew_dataset(id),
        Request::RenewReputation { address } => s.renew_reputation(address),
    }
}

// The freeze and refusals.

/// The requests that a freeze stops.
pub open spec fn is_write(request: Request) -> bool {
    request is Register || request is Update || request is Flag || request is Reinstate
        || request is Deprecate
}

/// A frozen contract refuses every write, changes nothing and asks nobody to
/// authorize anything.
pub proof fn law_frozen(s: DatasetRegistryModel, ctx: ContextModel, request: Request)
    requires
        s.governance.paused,
        is_write(request),
    ensures
        step(s, ctx, request).answer == Err::<(), Error>(Error::ContractPaused),
        step(s, ctx, request).state == s,
        step(s, ctx, request).effects.len() == 0,
{
}

/// The state with the freeze set to `paused`.
pub open spec fn with_freeze(s: DatasetRegistryModel, paused: bool) -> DatasetRegistryModel {
    DatasetRegistryModel { governance: GovernanceModel { paused, ..s.governance }, ..s }
}

/// Renewals, the admin handover, upgrades and an initialization go on in a
/// frozen contract as in a live one.
pub proof fn law_open_while_frozen(s: DatasetRegistryModel, ctx: ContextModel, request: Request)
    requires
        s.governance.paused,
        request is Initialize || request is ProposeAdmin || request is AcceptAdmin
            || request is Upgrade
            || request is RenewDataset || request is RenewReputation,
    ensures
        ({
            let live = step(with_freeze(s, false), ctx, request);
            let frozen = step(s, ctx, request);
            &&& frozen.answer == live.answer
            &&& frozen.effects == live.effects
            &&& frozen.state == with_freeze(live.state, true)
        }),
{
}

/// A freeze hides nothing: all that can be read stays as it is.
pub proof fn law_reads_go_on(s: DatasetRegistryModel, paused: bool)
    ensures
        with_freeze(s, paused).count == s.count,
        with_freeze(s, paused).datasets == s.datasets,
        with_freeze(s, paused).hashes == s.hashes,
        with_freeze(s, paused).reputations == s.reputations,
        with_freeze(s, paused).governance.admin == s.governance.admin,
        with_freeze(s, paused).governance.proposed == s.governance.proposed,
{
}

/// A freeze that is lifted leaves the contract as it was.
pub proof fn law_freeze_round_trip(
    s: DatasetRegistryModel,
    before: ContextModel,
    after: ContextModel,
)
    requires
        s.governance.admin is Some,
        !s.governance.paused,
    ensures
        ({
            let frozen = step(s, before, Request::Pause);
            let lifted = step(frozen.state, after, Request::Unpause);
            &&& frozen.answer is Ok
            &&& frozen.state.governance.paused
            &&& lifted.answer is Ok
            &&& lifted.state == s
        }),
{
}

/// Whether only authorizations are asked.
pub open spec fn only_authorizations(effects: Seq<EffectModel>) -> bool {
    forall|i: int| 0 <= i < effects.len() ==> (#[trigger] effects[i]) is Authorize
}

/// A refused request changes nothing, and asks for nothing but authorizations.
pub proof fn law_refusal_changes_nothing(
    s: DatasetRegistryModel,
    ctx: ContextModel,
    request: Request,
)
    requires
        step(s, ctx, request).answer is Err,
    ensures
        step(s, ctx, request).state == s,
        only_authorizations(step(s, ctx, request).effects),
{
}

/// Whoever becomes the admin has authorized it.
pub proof fn law_new_admin_signed(s: DatasetRegistryModel, ctx: ContextModel, request: Request)
    requires
        step(s, ctx, request).state.governance.admin != s.governance.admin,
    ensures
        step(s, ctx, request).state.governance.admin is Some,
        step(s, ctx, request).effects.len() > 0,
        step(s, ctx, request).effects[0] == EffectModel::Authorize(
            step(s, ctx, request).state.governance.admin->0,
        ),
{
}

// What every request keeps.

/// One for a dataset of `owner`, nothing for another.
pub open spec fn is_of(owner: Seq<char>) -> spec_fn(DatasetModel) -> int {
    |ds: DatasetModel|
        if ds.owner == owner {
            1int
        } else {
            0int
        }
}

/// How many datasets `owner` has registered.
pub open spec fn owned(s: DatasetRegistryModel, owner: Seq<char>) -> int {
    sum_over(s.datasets, is_of(owner))
}

/// Whether `id` is the id of one of the first `count` datasets.
pub open spec fn issued(id: Seq<char>, count: u32) -> bool {
    exists|n: nat| 1 <= n <= count && id == #[trigger] dataset_id(n)
}

/// Whether `shares` make a whole: some, none of them empty, nobody twice, and
/// all of them together ten thousand basis points.
pub open spec fn whole(shares: Seq<ShareModel>) -> bool {
    &&& shares.len() > 0
    &&& forall|i: int| 0 <= i < shares.len() ==> (#[trigger] shares[i]).share_bps > 0
    &&& forall|i: int, j: int|
        0 <= i < j < shares.len() ==> (#[trigger] shares[i]).address != (
        #[trigger] shares[j]).address
    &&& share_total(shares) == TOTAL_BPS
}

/// Whether `ds` is in order, stored under `id` in a registry of `count`.
pub open spec fn in_order(ds: DatasetModel, id: Seq<char>, count: u32) -> bool {
    &&& ds.id == id
    &&& issued(id, count)
    &&& ds.version >= 1
    &&& ds.metadata_hash != zero_hash()
    &&& whole(ds.contributors)
}

/// Whether `rep` is what `registered` registrations of `address` come to.
pub open spec fn earned(rep: ReputationModel, address: Seq<char>, registered: int) -> bool {
    &&& rep.address == address
    &&& rep.datasets_registered == registered
    &&& rep.reputation_score == (if registered * REPUTATION_STEP > REPUTATION_MAX {
        REPUTATION_MAX as int
    } else {
        registered * REPUTATION_STEP
    })
    &&& rep.total_royalties_stroops == 0
    &&& rep.quality_average == 0
}

/// Whether the index leads from every dataset's hash to the dataset, and from
/// nowhere else.
pub open spec fn indexed(s: DatasetRegistryModel) -> bool {
    &&& forall|id: Seq<char>| #[trigger]
        s.datasets.contains_key(id) ==> s.hashes.contains_key(s.datasets[id].metadata_hash)
            && s.hashes[s.datasets[id].metadata_hash] == id
    &&& forall|hash: Seq<u8>| #[trigger]
        s.hashes.contains_key(hash) ==> s.datasets.contains_key(s.hashes[hash])
            && s.datasets[s.hashes[hash]].metadata_hash == hash
}

/// A state that calls have led to.
pub open spec fn sound(s: DatasetRegistryModel) -> bool {
    &&& s.governance.admin is None ==> s.count == 0
    &&& s.datasets.dom().finite()
    &&& s.count == s.datasets.dom().len()
    &&& forall|id: Seq<char>| #[trigger]
        s.datasets.contains_key(id) ==> in_order(s.datasets[id], id, s.count)
    &&& indexed(s)
    &&& forall|address: Seq<char>| #[trigger]
        earned(s.reputation(address), address, owned(s, address))
    &&& forall|address: Seq<char>| #[trigger]
        s.reputations.contains_key(address) ==> owned(s, address) > 0
}

/// A registry starts sound.
pub proof fn law_fresh_is_sound()
    ensures
        sound(DatasetRegistryModel::fresh()),
{
    let s = DatasetRegistryModel::fresh();
    assert forall|address: Seq<char>| #[trigger]
        earned(s.reputation(address), address, owned(s, address)) by {
        assert(owned(s, address) == 0);
    }
}

/// The counters have room for another dataset of anyone for as long as the
/// count of datasets itself has.
pub proof fn law_room(s: DatasetRegistryModel, owner: Seq<char>)
    requires
        sound(s),
        s.count < u32::MAX,
    ensures
        s.has_room(owner),
{
    lemma_sum_at_most(s.datasets, is_of(owner));
    assert(earned(s.reputation(owner), owner, owned(s, owner)));
}

/// Whether the counters have room for what is asked.
pub open spec fn has_room(s: DatasetRegistryModel, request: Request) -> bool {
    match request {
        Request::Register { entry } => s.has_room(entry.owner),
        Request::Update { id, hash } => s.datasets.contains_key(id) ==> s.datasets[id].version
            < u32::MAX,
        _ => true,
    }
}

/// Every request keeps a registry sound: ids are issued in order, no two
/// datasets share a hash, the index leads to every dataset and to nothing
/// else, the shares of each make a whole, and every reputation is what its
/// registrations have earned.
pub proof fn law_sound_kept(s: DatasetRegistryModel, ctx: ContextModel, request: Request)
    requires
        sound(s),
        has_room(s, request),
    ensures
        sound(step(s, ctx, request).state),
{
    let after = step(s, ctx, request).state;
    match request {
        Request::Register { entry } => {
            if s.register_fault(entry) is None {
                lemma_register_sound(s, ctx, entry);
            }
        },
        Request::Update { id, hash } => {
            if s.update_fault(id, hash) is None {
                lemma_update_sound(s, id, hash);
            }
        },
        Request::Flag { id } => {
            if step(s, ctx, request).answer is Ok {
                lemma_move_sound(s, id, DatasetState::UnderReview);
            }
        },
        Request::Reinstate { id } => {
            if step(s, ctx, request).answer is Ok {
                lemma_move_sound(s, id, DatasetState::Active);
            }
        },
        Request::Deprecate { id, caller } => {
            if step(s, ctx, request).answer is Ok {
                lemma_move_sound(s, id, DatasetState::Deprecated);
            }
        },
        _ => {
            assert(after.datasets == s.datasets && after.hashes == s.hashes && after.count
                == s.count && after.reputations == s.reputations);
            lemma_reputations_stand(s, after);
        },
    }
}

proof fn lemma_reputations_stand(s: DatasetRegistryModel, after: DatasetRegistryModel)
    requires
        sound(s),
        after.reputations == s.reputations,
        forall|address: Seq<char>| #[trigger] owned(after, address) == owned(s, address),
    ensures
        forall|address: Seq<char>| #[trigger]
            earned(after.reputation(address), address, owned(after, address)),
        forall|address: Seq<char>| #[trigger]
            after.reputations.contains_key(address) ==> owned(after, address) > 0,
{
    assert forall|address: Seq<char>| #[trigger]
        earned(after.reputation(address), address, owned(after, address)) by {
        assert(earned(s.reputation(address), address, owned(s, address)));
    }
}

/// A new dataset never takes the place of one that is stored.
pub proof fn law_register_is_fresh(s: DatasetRegistryModel, ctx: ContextModel, entry: Entry)
    requires
        sound(s),
        s.register(ctx, entry).answer is Ok,
    ensures
        !s.datasets.contains_key(s.register(ctx, entry).answer->Ok_0),
{
    lemma_next_id_is_fresh(s);
}

proof fn lemma_next_id_is_fresh(s: DatasetRegistryModel)
    requires
        sound(s),
    ensures
        !s.datasets.contains_key(dataset_id((s.count + 1) as nat)),
{
    let id = dataset_id((s.count + 1) as nat);
    if s.datasets.contains_key(id) {
        assert(in_order(s.datasets[id], id, s.count));
        let n = choose|n: nat| 1 <= n <= s.count && id == #[trigger] dataset_id(n);
        lemma_numbered_injective("ds_"@, n, (s.count + 1) as nat);
    }
}

proof fn lemma_shares_are_whole(shares: Seq<ShareModel>, from: int)
    requires
        0 <= from <= shares.len(),
        share_fault(shares, from) is None,
    ensures
        forall|i: int| from <= i < shares.len() ==> (#[trigger] shares[i]).share_bps > 0,
        forall|i: int, j: int|
            from <= i < j < shares.len() ==> (#[trigger] shares[i]).address != (
            #[trigger] shares[j]).address,
        share_total(shares) == TOTAL_BPS,
    decreases shares.len() - from,
{
    if from < shares.len() {
        lemma_shares_are_whole(shares, from + 1);
    }
}

proof fn lemma_register_sound(s: DatasetRegistryModel, ctx: ContextModel, entry: Entry)
    requires
        sound(s),
        s.register_fault(entry) is None,
        s.has_room(entry.owner),
    ensures
        sound(s.register(ctx, entry).state),
{
    let after = s.register(ctx, entry).state;
    let id = dataset_id((s.count + 1) as nat);
    let ds = s.registered(ctx, entry);
    lemma_next_id_is_fresh(s);
    lemma_shares_are_whole(entry.contributors, 0);
    assert(after.datasets.dom() =~= s.datasets.dom().insert(id));
    assert forall|k: Seq<char>| #[trigger] after.datasets.contains_key(k) implies in_order(
        after.datasets[k],
        k,
        after.count,
    ) && after.hashes.contains_key(after.datasets[k].metadata_hash)
        && after.hashes[after.datasets[k].metadata_hash] == k by {
        if k == id {
            assert(issued(id, after.count));
        } else {
            assert(s.datasets.contains_key(k));
            assert(in_order(s.datasets[k], k, s.count));
            let n = choose|n: nat| 1 <= n <= s.count && k == #[trigger] dataset_id(n);
            assert(1 <= n <= after.count && k == dataset_id(n));
        }
    }
    assert forall|hash: Seq<u8>| #[trigger] after.hashes.contains_key(hash) implies {
        &&& after.datasets.contains_key(after.hashes[hash])
        &&& after.datasets[after.hashes[hash]].metadata_hash == hash
    } by {
        if hash != entry.metadata_hash {
            assert(s.hashes.contains_key(hash));
        }
    }
    assert forall|address: Seq<char>| #[trigger]
        earned(after.reputation(address), address, owned(after, address)) by {
        assert(earned(s.reputation(address), address, owned(s, address)));
        lemma_sum_insert(s.datasets, is_of(address), id, ds);
    }
    assert forall|address: Seq<char>| #[trigger]
        after.reputations.contains_key(address) implies owned(after, address) > 0 by {
        assert(earned(s.reputation(address), address, owned(s, address)));
        lemma_sum_insert(s.datasets, is_of(address), id, ds);
        if address != entry.owner {
            assert(s.reputations.contains_key(address));
        }
    }
}

proof fn lemma_owned_stand(s: DatasetRegistryModel, id: Seq<char>, ds: DatasetModel)
    requires
        s.datasets.dom().finite(),
        s.datasets.contains_key(id),
        ds.owner == s.datasets[id].owner,
    ensures
        forall|address: Seq<char>| #[trigger]
            owned(s.with_dataset(id, ds), address) == owned(s, address),
{
    assert forall|address: Seq<char>| #[trigger]
        owned(s.with_dataset(id, ds), address) == owned(s, address) by {
        lemma_sum_insert(s.datasets, is_of(address), id, ds);
    }
}

proof fn lemma_update_sound(s: DatasetRegistryModel, id: Seq<char>, hash: Seq<u8>)
    requires
        sound(s),
        s.update_fault(id, hash) is None,
        s.datasets[id].version < u32::MAX,
    ensures
        sound(s.update(id, hash).state),
{
    let after = s.update(id, hash).state;
    let before = s.datasets[id];
    let ds = after.datasets[id];
    lemma_owned_stand(s, id, ds);
    assert(after.datasets == s.with_dataset(id, ds).datasets);
    assert(forall|address: Seq<char>| #[trigger]
        owned(after, address) == owned(s.with_dataset(id, ds), address));
    lemma_reputations_stand(s, after);
    assert(after.datasets.dom() =~= s.datasets.dom());
    assert forall|k: Seq<char>| #[trigger] after.datasets.contains_key(k) implies in_order(
        after.datasets[k],
        k,
        after.count,
    ) && after.hashes.contains_key(after.datasets[k].metadata_hash)
        && after.hashes[after.datasets[k].metadata_hash] == k by {
        assert(s.datasets.contains_key(k));
        assert(s.hashes[s.datasets[k].metadata_hash] == k);
        assert(s.datasets.contains_key(id));
        assert(s.hashes[before.metadata_hash] == id);
    }
    assert forall|h: Seq<u8>| #[trigger] after.hashes.contains_key(h) implies {
        &&& after.datasets.contains_key(after.hashes[h])
        &&& after.datasets[after.hashes[h]].metadata_hash == h
    } by {
        if h != hash {
            assert(s.hashes.contains_key(h));
        }
    }
}

proof fn lemma_move_sound(s: DatasetRegistryModel, id: Seq<char>, state: DatasetState)
    requires
        sound(s),
        s.datasets.contains_key(id),
    ensures
        sound(s.with_dataset(id, DatasetModel { state, ..s.datasets[id] })),
{
    let ds = DatasetModel { state, ..s.datasets[id] };
    let after = s.with_dataset(id, ds);
    lemma_owned_stand(s, id, ds);
    lemma_reputations_stand(s, after);
    assert(after.datasets.dom() =~= s.datasets.dom());
    assert forall|k: Seq<char>| #[trigger] after.datasets.contains_key(k) implies in_order(
        after.datasets[k],
        k,
        after.count,
    ) && after.hashes.contains_key(after.datasets[k].metadata_hash)
        && after.hashes[after.datasets[k].metadata_hash] == k by {
        assert(s.datasets.contains_key(k));
    }
    assert forall|h: Seq<u8>| #[trigger] after.hashes.contains_key(h) implies {
        &&& after.datasets.contains_key(after.hashes[h])
        &&& after.datasets[after.hashes[h]].metadata_hash == h
    } by {
        assert(s.hashes.contains_key(h));
    }
}

/// Every stored dataset has an id that was given out, so that the text it is
/// stored under is that of no other entry of the registry.
pub proof fn law_stored_ids_are_issued(s: DatasetRegistryModel, id: Seq<char>)
    requires
        sound(s),
        s.datasets.contains_key(id),
    ensures
        KeyModel::Dataset(id).has_issued_id(),
{
    assert(in_order(s.datasets[id], id, s.count));
    let n = choose|n: nat| 1 <= n <= s.count && id == #[trigger] dataset_id(n);
    assert(id.subrange(0, "ds_"@.len() as int) =~= "ds_"@);
}

/// No two datasets have the same metadata hash.
pub proof fn law_hashes_are_unique(s: DatasetRegistryModel, one: Seq<char>, other: Seq<char>)
    requires
        sound(s),
        s.datasets.contains_key(one),
        s.datasets.contains_key(other),
        s.datasets[one].metadata_hash == s.datasets[other].metadata_hash,
    ensures
        one == other,
{
}

/// A reputation never passes its ceiling.
pub proof fn law_reputation_has_a_ceiling(s: DatasetRegistryModel, address: Seq<char>)
    requires
        sound(s),
    ensures
        s.reputation(address).reputation_score <= REPUTATION_MAX,
{
    assert(earned(s.reputation(address), address, owned(s, address)));
}

/// A reputation never falls, and nobody loses theirs.
pub proof fn law_reputation_never_falls(
    s: DatasetRegistryModel,
    ctx: ContextModel,
    request: Request,
    address: Seq<char>,
)
    requires
        sound(s),
        has_room(s, request),
    ensures
        ({
            let after = step(s, ctx, request).state;
            &&& s.reputation(address).reputation_score <= after.reputation(address).reputation_score
            &&& s.reputations.contains_key(address) ==> after.reputations.contains_key(address)
        }),
{
    assert(earned(s.reputation(address), address, owned(s, address)));
}

// The life of a dataset.

/// What of a dataset never changes.
pub open spec fn same_origin(a: DatasetModel, b: DatasetModel) -> bool {
    DatasetModel { metadata_hash: b.metadata_hash, version: b.version, state: b.state, ..a } == b
}

/// A dataset is never lost, and its id, owner, language, name, contributors,
/// size and origin never change.
pub proof fn law_origin_is_fixed(
    s: DatasetRegistryModel,
    ctx: ContextModel,
    request: Request,
    id: Seq<char>,
)
    requires
        sound(s),
        s.datasets.contains_key(id),
    ensures
        step(s, ctx, request).state.datasets.contains_key(id),
        same_origin(s.datasets[id], step(s, ctx, request).state.datasets[id]),
{
    lemma_next_id_is_fresh(s);
}

/// The content of a dataset changes only by an update that its owner signed,
/// while it is active: to another hash, and one version on. A dataset under
/// review cannot be swapped.
pub proof fn law_content_changes_by_update(
    s: DatasetRegistryModel,
    ctx: ContextModel,
    request: Request,
    id: Seq<char>,
)
    requires
        sound(s),
        has_room(s, request),
        s.datasets.contains_key(id),
    ensures
        ({
            let outcome = step(s, ctx, request);
            let before = s.datasets[id];
            let after = outcome.state.datasets[id];
            if before.metadata_hash == after.metadata_hash {
                before.version == after.version
            } else {
                &&& request is Update
                &&& before.state == DatasetState::Active
                &&& after.state == DatasetState::Active
                &&& after.version == before.version + 1
                &&& outcome.effects[0] == EffectModel::Authorize(before.owner)
            }
        }),
{
    lemma_next_id_is_fresh(s);
}

/// After an update the old hash is free and the new one leads to the dataset.
pub proof fn law_update_moves_the_index(s: DatasetRegistryModel, id: Seq<char>, hash: Seq<u8>)
    requires
        sound(s),
        s.update(id, hash).answer is Ok,
    ensures
        ({
            let after = s.update(id, hash).state;
            &&& !after.hashes.contains_key(s.datasets[id].metadata_hash)
            &&& after.hashes.contains_key(hash)
            &&& after.hashes[hash] == id
        }),
{
}

/// The only moves in the life of a dataset: the admin flags an active one and
/// reinstates one under review; the owner or the admin, who signs, deprecates
/// it.
pub proof fn law_moves(
    s: DatasetRegistryModel,
    ctx: ContextModel,
    request: Request,
    id: Seq<char>,
)
    requires
        sound(s),
        s.datasets.contains_key(id),
        s.datasets[id].state != step(s, ctx, request).state.datasets[id].state,
    ensures
        ({
            let outcome = step(s, ctx, request);
            let before = s.datasets[id];
            let after = outcome.state.datasets[id];
            match after.state {
                DatasetState::UnderReview => {
                    &&& request == Request::Flag { id }
                    &&& before.state == DatasetState::Active
                    &&& outcome.effects[0] == EffectModel::Authorize(s.governance.admin->0)
                },
                DatasetState::Active => {
                    &&& request == Request::Reinstate { id }
                    &&& before.state == DatasetState::UnderReview
                    &&& outcome.effects[0] == EffectModel::Authorize(s.governance.admin->0)
                },
                DatasetState::Deprecated => request matches Request::Deprecate { id: asked, caller }
                    && {
                    &&& asked == id
                    &&& caller == before.owner || Some(caller) == s.governance.admin
                    &&& outcome.effects[0] == EffectModel::Authorize(caller)
                },
            }
        }),
{
    lemma_next_id_is_fresh(s);
}

/// A deprecated dataset stays as it is, whatever is asked.
pub proof fn law_deprecated_is_final(
    s: DatasetRegistryModel,
    ctx: ContextModel,
    request: Request,
    id: Seq<char>,
)
    requires
        sound(s),
        s.datasets.contains_key(id),
        s.datasets[id].state == DatasetState::Deprecated,
    ensures
        step(s, ctx, request).state.datasets.contains_key(id),
        step(s, ctx, request).state.datasets[id] == s.datasets[id],
{
    lemma_next_id_is_fresh(s);
}

/// A review that ends in reinstatement leaves the registry as it was.
pub proof fn law_review_round_trip(s: DatasetRegistryModel, ctx: ContextModel, id: Seq<char>)
    requires
        s.flag(id).answer is Ok,
    ensures
        s.flag(id).state.reinstate(id).answer is Ok,
        s.flag(id).state.reinstate(id).state == s,
{
}

// Lifetimes.

/// Every record that a request writes is kept for the full window.
pub proof fn law_writes_are_kept(
    s: DatasetRegistryModel,
    ctx: ContextModel,
    request: Request,
    id: Seq<char>,
    hash: Seq<u8>,
    address: Seq<char>,
)
    ensures
        ({
            let outcome = step(s, ctx, request);
            let after = outcome.state;
            &&& after.datasets.contains_key(id) && !(s.datasets.contains_key(id) && s.datasets[id]
                == after.datasets[id]) ==> outcome.effects.contains(keep(KeyModel::Dataset(id)))
            &&& after.hashes.contains_key(hash) && !(s.hashes.contains_key(hash) && s.hashes[hash]
                == after.hashes[hash]) ==> outcome.effects.contains(keep(KeyModel::HashIndex(hash)))
            &&& after.reputations.contains_key(address) && !(s.reputations.contains_key(address)
                && s.reputations[address] == after.reputations[address])
                ==> outcome.effects.contains(keep(KeyModel::Reputation(address)))
        }),
{
    let fx = step(s, ctx, request).effects;
    match request {
        Request::Register { entry } => {
            if s.register_fault(entry) is None {
                assert(fx[2] == keep(KeyModel::Dataset(dataset_id((s.count + 1) as nat))));
                assert(fx[3] == keep(KeyModel::HashIndex(entry.metadata_hash)));
                assert(fx[4] == keep(KeyModel::Reputation(entry.owner)));
            }
        },
        Request::Update { id: asked, hash: new } => {
            if s.update_fault(asked, new) is None {
                assert(fx[1] == keep(KeyModel::HashIndex(new)));
                assert(fx[3] == keep(KeyModel::Dataset(asked)));
            }
        },
        Request::Flag { id: asked } => {
            if step(s, ctx, request).answer is Ok {
                assert(fx[2] == keep(KeyModel::Dataset(asked)));
            }
        },
        Request::Reinstate { id: asked } => {
            if step(s, ctx, request).answer is Ok {
                assert(fx[2] == keep(KeyModel::Dataset(asked)));
            }
        },
        Request::Deprecate { id: asked, caller } => {
            if step(s, ctx, request).answer is Ok {
                assert(fx[2] == keep(KeyModel::Dataset(asked)));
            }
        },
        _ => {},
    }
}

/// Any request that keeps a record keeps the contract too.
pub proof fn law_contract_outlives_records(
    s: DatasetRegistryModel,
    ctx: ContextModel,
    request: Request,
    at: int,
)
    requires
        0 <= at < step(s, ctx, request).effects.len(),
        step(s, ctx, request).effects[at] is Extend,
    ensures
        step(s, ctx, request).effects.contains(keep(KeyModel::Instance)),
{
    let fx = step(s, ctx, request).effects;
    match request {
        Request::Update { .. } => {
            assert(fx[2] == keep(KeyModel::Instance));
        },
        Request::RenewDataset { .. } => {
            assert(fx[0] == keep(KeyModel::Instance));
        },
        Request::RenewReputation { .. } => {
            assert(fx[0] == keep(KeyModel::Instance));
        },
        _ => {
            assert(fx[1] == keep(KeyModel::Instance));
        },
    }
}

/// A renewal changes nothing, and a dataset is renewed together with the index
/// entry of its hash: the hash does not fall free while the dataset lives.
pub proof fn law_renewal_keeps_the_index(s: DatasetRegistryModel, id: Seq<char>)
    requires
        sound(s),
        s.datasets.contains_key(id),
    ensures
        s.renew_dataset(id).answer is Ok,
        s.renew_dataset(id).state == s,
        s.renew_dataset(id).effects.contains(keep(KeyModel::Dataset(id))),
        s.renew_dataset(id).effects.contains(
            keep(KeyModel::HashIndex(s.datasets[id].metadata_hash)),
        ),
{
    let fx = s.renew_dataset(id).effects;
    assert(fx[1] == keep(KeyModel::Dataset(id)));
    assert(fx[2] == keep(KeyModel::HashIndex(s.datasets[id].metadata_hash)));
}

/// The shares of a dataset are accepted exactly where they make a whole.
pub proof fn law_shares_make_a_whole(shares: Seq<ShareModel>)
    ensures
        shares_fault(shares) is None <==> whole(shares),
{
    if shares_fault(shares) is None {
        lemma_shares_are_whole(shares, 0);
    }
    if whole(shares) {
        lemma_whole_is_accepted(shares, 0);
    }
}

proof fn lemma_whole_is_accepted(shares: Seq<ShareModel>, from: int)
    requires
        whole(shares),
        0 <= from <= shares.len(),
    ensures
        share_fault(shares, from) is None,
    decreases shares.len() - from,
{
    if from < shares.len() {
        lemma_part_at_most_total(shares, from + 1);
        lemma_whole_is_accepted(shares, from + 1);
    }
}

proof fn lemma_part_at_most_total(shares: Seq<ShareModel>, upto: int)
    requires
        0 <= upto <= shares.len(),
    ensures
        share_total(shares.take(upto)) <= share_total(shares),
    decreases shares.len(),
{
    if upto == shares.len() {
        assert(shares.take(upto) =~= shares);
    } else {
        assert(shares.drop_last().take(upto) =~= shares.take(upto));
        lemma_part_at_most_total(shares.drop_last(), upto);
    }
}

} // verus!
