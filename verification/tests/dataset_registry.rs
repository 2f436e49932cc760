//! Datasets, on a real ledger.
#![allow(deprecated)]

use data_market::dataset_registry::{ContributorShare, DatasetRegistry, DatasetState, Error};
use data_market::host::{
    Address, Context, Effect, Effects, Hash32, StorageKey, Value, PERSISTENT_TTL,
};
use soroban_sdk::testutils::{
    storage::Persistent as _, Address as _, ContractFunctionSet, EnvTestConfig, Ledger as _,
};
use soroban_sdk::token::Client as TokenClient;
use soroban_sdk::{
    Address as Account, BytesN, Env, IntoVal, InvokeError, String as Text, Symbol, Val, Vec as List,
};
use std::cell::RefCell;
use std::rc::Rc;

/// A ledger, and a contract on it in whose name effects are carried out.
struct Stage {
    env: Env,
    address: Account,
    job: Rc<RefCell<Vec<Effect>>>,
    contract: RefCell<DatasetRegistry>,
}

struct Actor {
    job: Rc<RefCell<Vec<Effect>>>,
}

impl ContractFunctionSet for Actor {
    fn call(&self, _name: &str, env: Env, _args: &[Val]) -> Option<Val> {
        for effect in self.job.borrow().iter() {
            carry_out(&env, effect);
        }
        Some(().into_val(&env))
    }
}

fn account(env: &Env, who: &Address) -> Account {
    Account::from_str(env, &who.strkey)
}

fn name_of(env: &Env, key: &StorageKey) -> Text {
    Text::from_str(env, &format!("{:?}", key))
}

fn value(env: &Env, item: &Value) -> Val {
    match item {
        Value::Text(x) => Text::from_str(env, x).into_val(env),
        Value::Account(x) => account(env, x).into_val(env),
        Value::Digest(x) => BytesN::from_array(env, &x.bytes).into_val(env),
        Value::U32(x) => x.into_val(env),
        Value::U64(x) => x.into_val(env),
        Value::I128(x) => x.into_val(env),
        Value::Flag(x) => x.into_val(env),
        Value::Variant(x) => (Symbol::new(env, x),).into_val(env),
    }
}

fn carry_out(env: &Env, effect: &Effect) {
    match effect {
        Effect::Authorize(who) => account(env, who).require_auth(),
        Effect::Transfer { token, from, to, amount } => {
            TokenClient::new(env, &account(env, token)).transfer(
                &account(env, from),
                &account(env, to),
                amount,
            );
        }
        Effect::Extend { key: StorageKey::Instance, threshold, extend_to } => {
            env.storage().instance().extend_ttl(*threshold, *extend_to);
        }
        Effect::Extend { key, threshold, extend_to } => {
            let entries = env.storage().persistent();
            let name = name_of(env, key);
            if !entries.has(&name) {
                entries.set(&name, &true);
            }
            entries.extend_ttl(&name, *threshold, *extend_to);
        }
        Effect::Publish { group, name, data } => {
            let topics = (Symbol::new(env, group), Symbol::new(env, name));
            if data.len() == 1 {
                env.events().publish(topics, value(env, &data[0]));
            } else {
                let mut items: List<Val> = List::new(env);
                for item in data {
                    items.push_back(value(env, item));
                }
                env.events().publish(topics, items);
            }
        }
        Effect::Upgrade(hash) => {
            let hash = BytesN::from_array(env, &hash.bytes);
            env.deployer().update_current_contract_wasm(hash);
        }
    }
}

impl Stage {
    fn new() -> Stage {
        let env = Env::new_with_config(EnvTestConfig { capture_snapshot_at_drop: false });
        env.mock_all_auths();
        Stage::on(&env)
    }

    fn on(env: &Env) -> Stage {
        let job = Rc::new(RefCell::new(Vec::new()));
        let address = env.register_contract(None, Actor { job: job.clone() });
        let contract = RefCell::new(DatasetRegistry::new());
        Stage { env: env.clone(), address, job, contract }
    }

    fn someone(&self) -> Address {
        address_of(&Account::generate(&self.env))
    }

    fn context(&self) -> Context {
        Context {
            sequence: self.env.ledger().sequence(),
            timestamp: self.env.ledger().timestamp(),
            contract: address_of(&self.address),
        }
    }

    /// Makes a call. `Err(None)` where the host refused what the call asked.
    fn attempt<T>(
        &self,
        call: impl FnOnce(&mut DatasetRegistry, &Context, &mut Effects) -> Result<T, Error>,
    ) -> Result<T, Option<Error>> {
        let mut next = self.contract.borrow().clone();
        let mut fx = Effects::new();
        let answer = call(&mut next, &self.context(), &mut fx);
        *self.job.borrow_mut() = fx.list;
        let run = Symbol::new(&self.env, "run");
        let done = self.env.try_invoke_contract::<(), InvokeError>(
            &self.address,
            &run,
            List::new(&self.env),
        );
        if done.is_err() {
            return Err(None);
        }
        match answer {
            Ok(value) => {
                *self.contract.borrow_mut() = next;
                Ok(value)
            }
            Err(e) => Err(Some(e)),
        }
    }

    /// Makes a call that has to go through.
    fn call<T>(
        &self,
        call: impl FnOnce(&mut DatasetRegistry, &Context, &mut Effects) -> Result<T, Error>,
    ) -> T {
        match self.attempt(call) {
            Ok(value) => value,
            Err(Some(e)) => panic!("{}: Error(Contract, #{})", e.message(), e.code()),
            Err(None) => panic!("the host refused the call"),
        }
    }

    /// Reads what has to be there.
    fn read<T>(&self, read: impl FnOnce(&DatasetRegistry) -> Result<T, Error>) -> T {
        match read(&self.contract.borrow()) {
            Ok(value) => value,
            Err(e) => panic!("{}: Error(Contract, #{})", e.message(), e.code()),
        }
    }

    fn advance(&self, ledgers: u32) {
        self.env.ledger().with_mut(|l| l.sequence_number += ledgers);
    }

    fn ttl_of(&self, key: StorageKey) -> u32 {
        let name = name_of(&self.env, &key);
        self.env.as_contract(&self.address, || {
            self.env.storage().persistent().get_ttl(&name)
        })
    }

    /// The host caps every entry, so a full window is the smaller of the two.
    fn full_window(&self) -> u32 {
        PERSISTENT_TTL.min(self.env.ledger().get().max_entry_ttl - 1)
    }
}

fn address_of(account: &Account) -> Address {
    let text = account.to_string();
    let mut bytes = vec![0u8; text.len() as usize];
    text.copy_into_slice(&mut bytes);
    Address { strkey: String::from_utf8(bytes).unwrap() }
}

fn text(s: &str) -> String {
    String::from(s)
}

fn hash_of(byte: u8) -> Hash32 {
    let mut bytes = [0u8; 32];
    bytes[0] = byte;
    Hash32 { bytes }
}

const ZERO: Hash32 = Hash32 { bytes: [0u8; 32] };

fn setup() -> (Stage, Address) {
    let stage = Stage::new();
    let admin = stage.someone();
    stage.call(|c, _, fx| c.initialize(fx, admin.clone()));
    (stage, admin)
}

fn share(who: &Address, share_bps: u32) -> ContributorShare {
    ContributorShare { address: who.clone(), share_bps }
}

fn register_with(
    stage: &Stage,
    owner: &Address,
    language: &str,
    name: &str,
    hash: Hash32,
    contributors: Vec<ContributorShare>,
) -> Result<String, Option<Error>> {
    register_sized(stage, owner, language, name, hash, contributors, 100, 3600)
}

fn register_sized(
    stage: &Stage,
    owner: &Address,
    language: &str,
    name: &str,
    hash: Hash32,
    contributors: Vec<ContributorShare>,
    sample_count: u32,
    duration_seconds: u32,
) -> Result<String, Option<Error>> {
    stage.attempt(|c, ctx, fx| {
        c.register_dataset(
            ctx,
            fx,
            owner.clone(),
            text(language),
            text(name),
            hash,
            contributors,
            sample_count,
            duration_seconds,
            None,
        )
    })
}

fn try_register(stage: &Stage, owner: &Address, hash: Hash32) -> Result<String, Option<Error>> {
    register_with(stage, owner, "en", "Test Dataset", hash, vec![share(owner, 10000)])
}

fn register(stage: &Stage, owner: &Address, hash: Hash32) -> String {
    expect(try_register(stage, owner, hash))
}

fn expect<T>(answer: Result<T, Option<Error>>) -> T {
    match answer {
        Ok(value) => value,
        Err(Some(e)) => panic!("{}: Error(Contract, #{})", e.message(), e.code()),
        Err(None) => panic!("the host refused the call"),
    }
}

fn update(stage: &Stage, id: &String, hash: Hash32) {
    stage.call(|c, _, fx| c.update_metadata(fx, id.clone(), hash));
}

fn flag(stage: &Stage, id: &String) {
    stage.call(|c, _, fx| c.flag_dataset(fx, id.clone()));
}

fn reinstate(stage: &Stage, id: &String) {
    stage.call(|c, _, fx| c.reinstate_dataset(fx, id.clone()));
}

fn deprecate(stage: &Stage, id: &String, caller: &Address) {
    stage.call(|c, _, fx| c.deprecate_dataset(fx, id.clone(), caller.clone()));
}

fn state_of(stage: &Stage, id: &String) -> DatasetState {
    stage.read(|c| c.get_state(id))
}

fn id_for(stage: &Stage, hash: Hash32) -> Option<String> {
    stage.contract.borrow().dataset_id_for_hash(&hash)
}

// Registration.

#[test]
#[should_panic(expected = "metadata hash cannot be zero")]
fn test_register_zero_hash_panics() {
    let (stage, _admin) = setup();
    let owner = stage.someone();
    register(&stage, &owner, ZERO);
}

#[test]
fn test_register_valid_hash_succeeds() {
    let (stage, _admin) = setup();
    let owner = stage.someone();

    let id = register(&stage, &owner, hash_of(1));

    assert_eq!(id, "ds_1");
    assert_eq!(stage.contract.borrow().dataset_count(), 1);

    let ds = stage.read(|c| c.get_dataset(&id));
    assert_eq!(ds.owner, owner);
    assert_eq!(ds.version, 1);
    assert_eq!(ds.state, DatasetState::Active);
    assert_eq!(ds.language_code, "en");
    assert_eq!(ds.sample_count, 100);
    assert_eq!(ds.duration_seconds, 3600);
}

#[test]
fn test_dataset_ids_increment_across_registrations() {
    let (stage, _admin) = setup();
    let owner = stage.someone();

    let first = register(&stage, &owner, hash_of(1));
    let second = register(&stage, &owner, hash_of(2));

    assert_eq!(first, "ds_1");
    assert_eq!(second, "ds_2");
    assert_eq!(stage.contract.borrow().dataset_count(), 2);
}

#[test]
#[should_panic(expected = "dataset with this metadata hash is already registered")]
fn test_register_duplicate_hash_panics() {
    let (stage, _admin) = setup();
    let owner = stage.someone();
    register(&stage, &owner, hash_of(9));

    // Another owner, name and language do not make it another dataset.
    let other = stage.someone();
    let shares = vec![share(&other, 10000)];
    expect(register_sized(&stage, &other, "fr", "Second", hash_of(9), shares, 200, 7200));
}

#[test]
fn test_dataset_id_for_hash_returns_id_after_registration_and_none_before() {
    let (stage, _admin) = setup();
    let owner = stage.someone();

    assert_eq!(id_for(&stage, hash_of(5)), None);
    let id = register(&stage, &owner, hash_of(5));
    assert_eq!(id_for(&stage, hash_of(5)), Some(id));
}

// Shares.

#[test]
#[should_panic(expected = "contributor shares must sum to 10000 bps")]
fn test_register_shares_under_target_panics() {
    let (stage, _admin) = setup();
    let owner = stage.someone();
    let shares = vec![share(&owner, 4000), share(&stage.someone(), 5000)];
    expect(register_with(&stage, &owner, "en", "Underweight", hash_of(11), shares));
}

#[test]
#[should_panic(expected = "contributor shares must sum to 10000 bps")]
fn test_register_shares_over_target_panics() {
    let (stage, _admin) = setup();
    let owner = stage.someone();
    let shares = vec![share(&owner, 6000), share(&stage.someone(), 5000)];
    expect(register_with(&stage, &owner, "en", "Overweight", hash_of(12), shares));
}

#[test]
#[should_panic(expected = "dataset must have at least one contributor")]
fn test_register_empty_contributors_panics() {
    let (stage, _admin) = setup();
    let owner = stage.someone();
    expect(register_with(&stage, &owner, "en", "No contributors", hash_of(13), vec![]));
}

#[test]
#[should_panic(expected = "contributor share must be greater than zero")]
fn test_register_zero_share_contributor_panics() {
    let (stage, _admin) = setup();
    let owner = stage.someone();
    let shares = vec![share(&owner, 10000), share(&stage.someone(), 0)];
    expect(register_with(&stage, &owner, "en", "Zero share", hash_of(14), shares));
}

#[test]
#[should_panic(expected = "duplicate contributor address")]
fn test_register_duplicate_contributor_panics() {
    let (stage, _admin) = setup();
    let owner = stage.someone();
    // Sums to exactly 10000, so only the duplicate check can catch it.
    let shares = vec![share(&owner, 5000), share(&owner, 5000)];
    expect(register_with(&stage, &owner, "en", "Duplicate contributor", hash_of(15), shares));
}

#[test]
fn test_register_multiple_contributors_summing_to_target_succeeds() {
    let (stage, _admin) = setup();
    let owner = stage.someone();
    let shares = vec![
        share(&owner, 6000),
        share(&stage.someone(), 2500),
        share(&stage.someone(), 1500),
    ];
    let id = stage.call(|c, ctx, fx| {
        c.register_dataset(
            ctx,
            fx,
            owner.clone(),
            text("yo"),
            text("Three way split"),
            hash_of(16),
            shares,
            500,
            18_000,
            None,
        )
    });
    assert_eq!(stage.read(|c| c.get_dataset(&id)).contributors.len(), 3);
}

#[test]
fn the_first_fault_of_the_shares_is_named() {
    let a = Address { strkey: text("a") };
    let b = Address { strkey: text("b") };
    let check = |shares: Vec<ContributorShare>| DatasetRegistry::validate_shares(&shares);
    assert_eq!(
        check(vec![share(&a, u32::MAX), share(&b, 1)]),
        Err(Error::ContributorSharesOverflow)
    );
    // The overflow is met before the empty share that follows it.
    let c = Address { strkey: text("c") };
    assert_eq!(
        check(vec![share(&a, u32::MAX), share(&b, 1), share(&c, 0)]),
        Err(Error::ContributorSharesOverflow)
    );
    // An empty share is met before the repetition that follows it.
    assert_eq!(
        check(vec![share(&a, 0), share(&a, 10000)]),
        Err(Error::ContributorShareMustBeGreaterThanZero)
    );
    assert_eq!(
        check(vec![share(&a, 1), share(&a, 0)]),
        Err(Error::DuplicateContributorAddress)
    );
    assert_eq!(check(vec![share(&a, 1), share(&b, 9999)]), Ok(()));
}

// The admin.

#[test]
#[should_panic(expected = "already initialized")]
fn test_double_initialize_panics() {
    let (stage, _admin) = setup();
    let other = stage.someone();
    stage.call(|c, _, fx| c.initialize(fx, other));
}

#[test]
#[should_panic(expected = "not initialized")]
fn test_register_before_initialize_panics() {
    let stage = Stage::new();
    let owner = stage.someone();
    register(&stage, &owner, hash_of(21));
}

#[test]
fn test_test_admin_handoff_propose_then_accept() {
    let (stage, _admin) = setup();
    let new_admin = stage.someone();

    stage.call(|c, _, fx| c.propose_admin(fx, new_admin.clone()));
    stage.call(|c, _, fx| c.accept_admin(fx));

    // Proposing again confirms that the handover took effect.
    let another = stage.someone();
    stage.call(|c, _, fx| c.propose_admin(fx, another));
    assert_eq!(stage.contract.borrow().governance.admin, Some(new_admin));
}

#[test]
#[should_panic(expected = "no admin proposal pending")]
fn test_test_accept_admin_without_proposal_panics() {
    let (stage, _admin) = setup();
    stage.call(|c, _, fx| c.accept_admin(fx));
}

// Updates.

#[test]
fn test_update_metadata_bumps_version_and_moves_hash_index() {
    let (stage, _admin) = setup();
    let owner = stage.someone();

    let id = register(&stage, &owner, hash_of(31));
    update(&stage, &id, hash_of(32));

    let ds = stage.read(|c| c.get_dataset(&id));
    assert_eq!(ds.version, 2);
    assert_eq!(ds.metadata_hash, hash_of(32));

    // The index follows the dataset: the new hash leads to it, the old one is
    // free for another.
    assert_eq!(id_for(&stage, hash_of(32)), Some(id));
    assert_eq!(id_for(&stage, hash_of(31)), None);
    assert_eq!(register(&stage, &owner, hash_of(31)), "ds_2");
}

#[test]
#[should_panic(expected = "metadata hash cannot be zero")]
fn test_update_metadata_zero_hash_panics() {
    let (stage, _admin) = setup();
    let owner = stage.someone();
    let id = register(&stage, &owner, hash_of(33));
    update(&stage, &id, ZERO);
}

#[test]
#[should_panic(expected = "metadata hash unchanged")]
fn test_update_metadata_same_hash_panics() {
    let (stage, _admin) = setup();
    let owner = stage.someone();
    let id = register(&stage, &owner, hash_of(34));
    update(&stage, &id, hash_of(34));
}

#[test]
#[should_panic(expected = "dataset with this metadata hash is already registered")]
fn test_update_metadata_to_another_datasets_hash_panics() {
    let (stage, _admin) = setup();
    let owner = stage.someone();
    let first = register(&stage, &owner, hash_of(35));
    register(&stage, &owner, hash_of(36));
    update(&stage, &first, hash_of(36));
}

#[test]
#[should_panic(expected = "dataset not found")]
fn test_update_metadata_unknown_dataset_panics() {
    let (stage, _admin) = setup();
    update(&stage, &text("ds_404"), hash_of(37));
}

#[test]
fn only_the_owner_updates() {
    let (stage, _admin) = setup();
    let owner = stage.someone();
    let id = register(&stage, &owner, hash_of(38));
    stage.env.set_auths(&[]);
    assert_eq!(
        stage.attempt(|c, _, fx| c.update_metadata(fx, id.clone(), hash_of(39))),
        Err(None)
    );
    assert_eq!(stage.read(|c| c.get_dataset(&id)).version, 1);
}

// The lifecycle.

#[test]
fn test_flag_then_reinstate_round_trips_state() {
    let (stage, _admin) = setup();
    let owner = stage.someone();
    let id = register(&stage, &owner, hash_of(41));
    assert_eq!(state_of(&stage, &id), DatasetState::Active);

    flag(&stage, &id);
    assert_eq!(state_of(&stage, &id), DatasetState::UnderReview);

    reinstate(&stage, &id);
    assert_eq!(state_of(&stage, &id), DatasetState::Active);
}

#[test]
#[should_panic(expected = "dataset must be active to update metadata")]
fn test_update_metadata_under_review_panics() {
    let (stage, _admin) = setup();
    let owner = stage.someone();
    let id = register(&stage, &owner, hash_of(42));
    flag(&stage, &id);
    update(&stage, &id, hash_of(43));
}

#[test]
#[should_panic(expected = "only an active dataset can be flagged for review")]
fn test_flag_twice_panics() {
    let (stage, _admin) = setup();
    let owner = stage.someone();
    let id = register(&stage, &owner, hash_of(44));
    flag(&stage, &id);
    flag(&stage, &id);
}

#[test]
#[should_panic(expected = "only a dataset under review can be reinstated")]
fn test_reinstate_active_dataset_panics() {
    let (stage, _admin) = setup();
    let owner = stage.someone();
    let id = register(&stage, &owner, hash_of(45));
    reinstate(&stage, &id);
}

#[test]
fn test_owner_can_deprecate() {
    let (stage, _admin) = setup();
    let owner = stage.someone();
    let id = register(&stage, &owner, hash_of(51));
    deprecate(&stage, &id, &owner);
    assert_eq!(state_of(&stage, &id), DatasetState::Deprecated);
}

#[test]
fn test_admin_can_deprecate() {
    let (stage, admin) = setup();
    let owner = stage.someone();
    let id = register(&stage, &owner, hash_of(52));
    deprecate(&stage, &id, &admin);
    assert_eq!(state_of(&stage, &id), DatasetState::Deprecated);
}

#[test]
fn test_under_review_dataset_can_be_deprecated() {
    let (stage, _admin) = setup();
    let owner = stage.someone();
    let id = register(&stage, &owner, hash_of(53));
    flag(&stage, &id);
    deprecate(&stage, &id, &owner);
    assert_eq!(state_of(&stage, &id), DatasetState::Deprecated);
}

#[test]
#[should_panic(expected = "only the dataset owner or admin can deprecate")]
fn test_stranger_cannot_deprecate() {
    let (stage, _admin) = setup();
    let owner = stage.someone();
    let stranger = stage.someone();
    let id = register(&stage, &owner, hash_of(54));
    deprecate(&stage, &id, &stranger);
}

#[test]
#[should_panic(expected = "dataset is already deprecated")]
fn test_double_deprecate_panics() {
    let (stage, _admin) = setup();
    let owner = stage.someone();
    let id = register(&stage, &owner, hash_of(55));
    deprecate(&stage, &id, &owner);
    deprecate(&stage, &id, &owner);
}

#[test]
#[should_panic(expected = "dataset must be active to update metadata")]
fn test_update_metadata_after_deprecation_panics() {
    let (stage, _admin) = setup();
    let owner = stage.someone();
    let id = register(&stage, &owner, hash_of(56));
    deprecate(&stage, &id, &owner);
    update(&stage, &id, hash_of(57));
}

#[test]
#[should_panic(expected = "only an active dataset can be flagged for review")]
fn test_deprecated_is_terminal_and_cannot_be_flagged() {
    let (stage, _admin) = setup();
    let owner = stage.someone();
    let id = register(&stage, &owner, hash_of(58));
    deprecate(&stage, &id, &owner);
    flag(&stage, &id);
}

#[test]
fn unknown_datasets_are_not_found() {
    let (stage, admin) = setup();
    let missing = Err(Some(Error::DatasetNotFound));
    let id = || text("ds_9");
    assert_eq!(stage.contract.borrow().get_dataset(&id()), Err(Error::DatasetNotFound));
    assert_eq!(stage.contract.borrow().get_state(&id()), Err(Error::DatasetNotFound));
    assert_eq!(stage.attempt(|c, _, fx| c.flag_dataset(fx, id())), missing);
    assert_eq!(stage.attempt(|c, _, fx| c.reinstate_dataset(fx, id())), missing);
    assert_eq!(stage.attempt(|c, _, fx| c.deprecate_dataset(fx, id(), admin)), missing);
}

// Reputation.

#[test]
fn test_reputation_accrues_per_registration() {
    let (stage, _admin) = setup();
    let owner = stage.someone();

    register(&stage, &owner, hash_of(61));
    let after_one = stage.read(|c| c.get_reputation(&owner));
    assert_eq!(after_one.datasets_registered, 1);
    assert_eq!(after_one.reputation_score, 50);

    register(&stage, &owner, hash_of(62));
    let after_two = stage.read(|c| c.get_reputation(&owner));
    assert_eq!(after_two.datasets_registered, 2);
    assert_eq!(after_two.reputation_score, 100);
}

#[test]
#[should_panic(expected = "no reputation data")]
fn test_reputation_for_unknown_address_panics() {
    let (stage, _admin) = setup();
    let who = stage.someone();
    stage.read(|c| c.get_reputation(&who));
}

#[test]
fn a_reputation_stops_at_its_ceiling() {
    let (stage, _admin) = setup();
    let owner = stage.someone();
    for n in 1..=22u8 {
        register(&stage, &owner, hash_of(n));
        let rep = stage.read(|c| c.get_reputation(&owner));
        assert_eq!(rep.datasets_registered, n as u32);
        assert_eq!(rep.reputation_score, (50 * n as u32).min(1000));
    }
}

// The freeze.

#[test]
fn a_frozen_registry_refuses_every_write() {
    let (stage, _admin) = setup();
    let owner = stage.someone();
    let id = register(&stage, &owner, hash_of(1));
    stage.call(|c, ctx, fx| c.pause(ctx, fx));
    let frozen = Err(Some(Error::ContractPaused));
    assert!(try_register(&stage, &owner, hash_of(2)) == Err(Some(Error::ContractPaused)));
    assert_eq!(stage.attempt(|c, _, fx| c.update_metadata(fx, id.clone(), hash_of(3))), frozen);
    assert_eq!(stage.attempt(|c, _, fx| c.flag_dataset(fx, id.clone())), frozen);
    assert_eq!(stage.attempt(|c, _, fx| c.reinstate_dataset(fx, id.clone())), frozen);
    assert_eq!(
        stage.attempt(|c, _, fx| c.deprecate_dataset(fx, id.clone(), owner.clone())),
        frozen
    );
    assert_eq!(
        stage.attempt(|c, ctx, fx| c.pause(ctx, fx)),
        Err(Some(Error::AlreadyPaused))
    );
    // Reads, renewals and the handover go on.
    assert_eq!(state_of(&stage, &id), DatasetState::Active);
    stage.call(|c, _, fx| c.renew_dataset_ttl(fx, id.clone()));
    stage.call(|c, _, fx| c.renew_reputation_ttl(fx, owner.clone()));
    let successor = stage.someone();
    stage.call(|c, _, fx| c.propose_admin(fx, successor));
    stage.call(|c, _, fx| c.accept_admin(fx));
    stage.call(|c, ctx, fx| c.unpause(ctx, fx));
    assert_eq!(
        stage.attempt(|c, ctx, fx| c.unpause(ctx, fx)),
        Err(Some(Error::NotPaused))
    );
    update(&stage, &id, hash_of(3));
    assert_eq!(DatasetRegistry::version(), 3);
}

// Lifetimes.

fn register_to_last(stage: &Stage, owner: &Address, hash: Hash32) -> String {
    expect(register_with(stage, owner, "yo", "TTL Dataset", hash, vec![share(owner, 10000)]))
}

#[test]
fn test_register_dataset_extends_ttl_on_creation() {
    let (stage, _admin) = setup();
    let owner = stage.someone();
    let id = register_to_last(&stage, &owner, hash_of(1));
    assert_eq!(stage.ttl_of(StorageKey::Dataset(id)), stage.full_window());
    assert_eq!(stage.ttl_of(StorageKey::HashIndex(hash_of(1))), stage.full_window());
}

#[test]
fn test_update_metadata_renews_ttl() {
    let (stage, _admin) = setup();
    let owner = stage.someone();
    let id = register_to_last(&stage, &owner, hash_of(1));

    stage.advance(100_000);
    assert!(stage.ttl_of(StorageKey::Dataset(id.clone())) < stage.full_window());

    update(&stage, &id, hash_of(2));
    assert_eq!(stage.ttl_of(StorageKey::Dataset(id)), stage.full_window());
}

#[test]
fn test_renew_dataset_ttl_is_permissionless() {
    let (stage, _admin) = setup();
    let owner = stage.someone();
    let id = register_to_last(&stage, &owner, hash_of(1));

    stage.advance(1_000_000);
    assert!(stage.ttl_of(StorageKey::Dataset(id.clone())) < stage.full_window());

    stage.env.set_auths(&[]);
    stage.call(|c, _, fx| c.renew_dataset_ttl(fx, id.clone()));
    assert_eq!(stage.ttl_of(StorageKey::Dataset(id)), stage.full_window());
}

#[test]
fn test_renew_dataset_ttl_also_renews_hash_index() {
    let (stage, _admin) = setup();
    let owner = stage.someone();
    let id = register_to_last(&stage, &owner, hash_of(9));

    stage.advance(1_000_000);
    stage.call(|c, _, fx| c.renew_dataset_ttl(fx, id.clone()));

    assert_eq!(stage.ttl_of(StorageKey::HashIndex(hash_of(9))), stage.full_window());
    assert_eq!(id_for(&stage, hash_of(9)), Some(id));
}

#[test]
#[should_panic(expected = "dataset not found")]
fn test_renew_dataset_ttl_unknown_id_panics() {
    let (stage, _admin) = setup();
    stage.call(|c, _, fx| c.renew_dataset_ttl(fx, text("ds_nope")));
}

#[test]
fn test_dataset_readable_after_repeated_renewal_across_long_ledger_advance() {
    let (stage, _admin) = setup();
    let owner = stage.someone();
    let id = register_to_last(&stage, &owner, hash_of(3));

    // Renewed before each window lapses, the way a keeper would.
    let window = stage.full_window();
    for _ in 0..10 {
        stage.advance(window - 1);
        stage.call(|c, _, fx| c.renew_dataset_ttl(fx, id.clone()));
    }

    let ds = stage.read(|c| c.get_dataset(&id));
    assert_eq!(ds.id, id);
    assert_eq!(ds.owner, owner);
    assert_eq!(ds.state, DatasetState::Active);
    assert_eq!(id_for(&stage, hash_of(3)), Some(id));
}

#[test]
fn test_renew_reputation_ttl_is_permissionless() {
    let (stage, _admin) = setup();
    let owner = stage.someone();
    register_to_last(&stage, &owner, hash_of(1));
    let key = || StorageKey::Reputation(owner.clone());
    assert_eq!(stage.ttl_of(key()), stage.full_window());

    stage.advance(2_000_000);
    stage.env.set_auths(&[]);
    stage.call(|c, _, fx| c.renew_reputation_ttl(fx, owner.clone()));

    assert_eq!(stage.ttl_of(key()), stage.full_window());
    assert_eq!(stage.read(|c| c.get_reputation(&owner)).datasets_registered, 1);
}

#[test]
#[should_panic(expected = "no reputation data")]
fn test_renew_reputation_ttl_unknown_address_panics() {
    let (stage, _admin) = setup();
    let who = stage.someone();
    stage.call(|c, _, fx| c.renew_reputation_ttl(fx, who));
}

// What a call asks of the host.

#[test]
fn an_update_asks_for_the_owner_two_lifetimes_and_an_event() {
    let mut registry = DatasetRegistry::new();
    let me = |s: &str| Address { strkey: text(s) };
    let ctx = Context { sequence: 5, timestamp: 50, contract: me("contract") };
    let mut fx = Effects::new();
    registry.initialize(&mut fx, me("admin")).unwrap();
    let shares = vec![share(&me("owner"), 10000)];
    registry
        .register_dataset(
            &ctx,
            &mut fx,
            me("owner"),
            text("yo"),
            text("n"),
            hash_of(1),
            shares,
            2,
            3,
            Some(text("com_1")),
        )
        .unwrap();
    let mut fx = Effects::new();
    registry.update_metadata(&mut fx, text("ds_1"), hash_of(2)).unwrap();
    let keep = |key: StorageKey| Effect::Extend {
        key,
        threshold: PERSISTENT_TTL,
        extend_to: PERSISTENT_TTL,
    };
    assert_eq!(
        fx.list,
        vec![
            Effect::Authorize(me("owner")),
            keep(StorageKey::HashIndex(hash_of(2))),
            keep(StorageKey::Instance),
            keep(StorageKey::Dataset(text("ds_1"))),
            Effect::Publish {
                group: "dataset",
                name: "updated",
                data: vec![
                    Value::Text(text("ds_1")),
                    Value::Digest(hash_of(2)),
                    Value::U32(2),
                ],
            },
        ]
    );
    let ds = registry.get_dataset(&text("ds_1")).unwrap();
    assert_eq!(ds.created_ledger, 5);
    assert_eq!(ds.commission_id, Some(text("com_1")));
}
