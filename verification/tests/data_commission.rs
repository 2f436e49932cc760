//! Commissions, on a real ledger.
#![allow(deprecated)]

use data_market::data_commission::{Commission, CommissionState, DataCommission, Error, Milestone};
use data_market::host::{
    Address, Context, Effect, Effects, Hash32, StorageKey, Value, PERSISTENT_TTL,
};
use soroban_sdk::testutils::{
    storage::Persistent as _, Address as _, ContractFunctionSet, EnvTestConfig, Ledger as _,
};
use soroban_sdk::token::{Client as TokenClient, StellarAssetClient};
use soroban_sdk::{
    Address as Account, BytesN, Env, IntoVal, InvokeError, String as Text, Symbol, Val, Vec as List,
};
use std::cell::RefCell;
use std::rc::Rc;

/// A ledger, and a contract on it in whose name effects are carried out.
struct Stage {
    env: Env,
    address: Account,
    job: Rc<RefCell<Vec<Effect>>>,
    contract: RefCell<DataCommission>,
}

struct Actor {
    job: Rc<RefCell<Vec<Effect>>>,
}

impl ContractFunctionSet for Actor {
    fn call(&self, _name: &str, env: Env, _args: &[Val]) -> Option<Val> {
        for effect in self.job.borrow().iter() {
            carry_out(&env, effect);
        }
        Some(().into_val(&env))
    }
}

fn account(env: &Env, who: &Address) -> Account {
    Account::from_str(env, &who.strkey)
}

fn name_of(env: &Env, key: &StorageKey) -> Text {
    Text::from_str(env, &format!("{:?}", key))
}

fn value(env: &Env, item: &Value) -> Val {
    match item {
        Value::Text(x) => Text::from_str(env, x).into_val(env),
        Value::Account(x) => account(env, x).into_val(env),
        Value::Digest(x) => BytesN::from_array(env, &x.bytes).into_val(env),
        Value::U32(x) => x.into_val(env),
        Value::U64(x) => x.into_val(env),
        Value::I128(x) => x.into_val(env),
        Value::Flag(x) => x.into_val(env),
        Value::Variant(x) => (Symbol::new(env, x),).into_val(env),
    }
}

fn carry_out(env: &Env, effect: &Effect) {
    match effect {
        Effect::Authorize(who) => account(env, who).require_auth(),
        Effect::Transfer { token, from, to, amount } => {
            TokenClient::new(env, &account(env, token)).transfer(
                &account(env, from),
                &account(env, to),
                amount,
            );
        }
        Effect::Extend { key: StorageKey::Instance, threshold, extend_to } => {
            env.storage().instance().extend_ttl(*threshold, *extend_to);
        }
        Effect::Extend { key, threshold, extend_to } => {
            let entries = env.storage().persistent();
            let name = name_of(env, key);
            if !entries.has(&name) {
                entries.set(&name, &true);
            }
            entries.extend_ttl(&name, *threshold, *extend_to);
        }
        Effect::Publish { group, name, data } => {
            let topics = (Symbol::new(env, group), Symbol::new(env, name));
            if data.len() == 1 {
                env.events().publish(topics, value(env, &data[0]));
            } else {
                let mut items: List<Val> = List::new(env);
                for item in data {
                    items.push_back(value(env, item));
                }
                env.events().publish(topics, items);
            }
        }
        Effect::Upgrade(hash) => {
            let hash = BytesN::from_array(env, &hash.bytes);
            env.deployer().update_current_contract_wasm(hash);
        }
    }
}

impl Stage {
    fn new() -> Stage {
        let env = Env::new_with_config(EnvTestConfig { capture_snapshot_at_drop: false });
        env.mock_all_auths();
        Stage::on(&env)
    }

    fn on(env: &Env) -> Stage {
        let job = Rc::new(RefCell::new(Vec::new()));
        let address = env.register_contract(None, Actor { job: job.clone() });
        let contract = RefCell::new(DataCommission::new());
        Stage { env: env.clone(), address, job, contract }
    }

    fn someone(&self) -> Address {
        address_of(&Account::generate(&self.env))
    }

    fn context(&self) -> Context {
        Context {
            sequence: self.env.ledger().sequence(),
            timestamp: self.env.ledger().timestamp(),
            contract: address_of(&self.address),
        }
    }

    /// Makes a call. `Err(None)` where the host refused what the call asked.
    fn attempt<T>(
        &self,
        call: impl FnOnce(&mut DataCommission, &Context, &mut Effects) -> Result<T, Error>,
    ) -> Result<T, Option<Error>> {
        let mut next = self.contract.borrow().clone();
        let mut fx = Effects::new();
        let answer = call(&mut next, &self.context(), &mut fx);
        *self.job.borrow_mut() = fx.list;
        let run = Symbol::new(&self.env, "run");
        let done = self.env.try_invoke_contract::<(), InvokeError>(
            &self.address,
            &run,
            List::new(&self.env),
        );
        if done.is_err() {
            return Err(None);
        }
        match answer {
            Ok(value) => {
                *self.contract.borrow_mut() = next;
                Ok(value)
            }
            Err(e) => Err(Some(e)),
        }
    }

    /// Makes a call that has to go through.
    fn call<T>(
        &self,
        call: impl FnOnce(&mut DataCommission, &Context, &mut Effects) -> Result<T, Error>,
    ) -> T {
        match self.attempt(call) {
            Ok(value) => value,
            Err(Some(e)) => panic!("{}: Error(Contract, #{})", e.message(), e.code()),
            Err(None) => panic!("the host refused the call"),
        }
    }

    /// Reads what has to be there.
    fn read<T>(&self, read: impl FnOnce(&DataCommission) -> Result<T, Error>) -> T {
        match read(&self.contract.borrow()) {
            Ok(value) => value,
            Err(e) => panic!("{}: Error(Contract, #{})", e.message(), e.code()),
        }
    }

    fn advance(&self, ledgers: u32) {
        self.env.ledger().with_mut(|l| l.sequence_number += ledgers);
    }

    fn at_ledger(&self, sequence: u32) {
        self.env.ledger().with_mut(|l| l.sequence_number = sequence);
    }

    fn ttl_of(&self, key: StorageKey) -> u32 {
        let name = name_of(&self.env, &key);
        self.env.as_contract(&self.address, || {
            self.env.storage().persistent().get_ttl(&name)
        })
    }

    /// The host caps every entry, so a full window is the smaller of the two.
    fn full_window(&self) -> u32 {
        PERSISTENT_TTL.min(self.env.ledger().get().max_entry_ttl - 1)
    }
}

fn address_of(account: &Account) -> Address {
    let text = account.to_string();
    let mut bytes = vec![0u8; text.len() as usize];
    text.copy_into_slice(&mut bytes);
    Address { strkey: String::from_utf8(bytes).unwrap() }
}

fn text(s: &str) -> String {
    String::from(s)
}

fn hash_of(byte: u8) -> Hash32 {
    let mut bytes = [0u8; 32];
    bytes[0] = byte;
    Hash32 { bytes }
}

fn started() -> (Stage, Address) {
    let stage = Stage::new();
    let admin = stage.someone();
    stage.call(|c, _, fx| c.initialize(fx, admin.clone()));
    (stage, admin)
}

fn post(
    stage: &Stage,
    commissioner: &Address,
    token: &Address,
    hash: Hash32,
    amount: i128,
) -> Result<String, Option<Error>> {
    stage.attempt(|c, ctx, fx| {
        c.post_commission(
            ctx,
            fx,
            commissioner.clone(),
            text("en"),
            hash,
            token.clone(),
            amount,
            100,
            3600,
            9999999,
        )
    })
}

/// A commission for 1000, fully escrowed.
struct Posted {
    stage: Stage,
    admin: Address,
    commissioner: Address,
    token: Address,
    id: String,
}

fn posted() -> Posted {
    let stage = Stage::new();
    let commissioner = Account::generate(&stage.env);
    let token = stage.env.register_stellar_asset_contract_v2(commissioner.clone()).address();
    StellarAssetClient::new(&stage.env, &token).mint(&commissioner, &1000);
    let admin = stage.someone();
    stage.call(|c, _, fx| c.initialize(fx, admin.clone()));
    let commissioner = address_of(&commissioner);
    let token = address_of(&token);
    let id = post(&stage, &commissioner, &token, hash_of(1), 1000).unwrap();
    Posted { stage, admin, commissioner, token, id }
}

impl Posted {
    fn balance(&self, who: &Address) -> i128 {
        let env = &self.stage.env;
        TokenClient::new(env, &account(env, &self.token)).balance(&account(env, who))
    }

    fn escrow(&self) -> i128 {
        self.balance(&address_of(&self.stage.address))
    }

    fn commission(&self) -> Commission {
        self.stage.read(|c| c.get_commission(&self.id))
    }

    fn set_milestones(&self, amounts: &[i128]) -> Result<(), Option<Error>> {
        let milestones: Vec<Milestone> = amounts.iter().map(|amount| milestone(*amount)).collect();
        self.stage.attempt(|c, _, fx| c.set_milestones(fx, self.id.clone(), milestones))
    }

    fn fulfil(&self, fulfiller: &Address) -> Result<(), Option<Error>> {
        self.stage.attempt(|c, ctx, fx| {
            c.fulfil_commission(ctx, fx, self.id.clone(), fulfiller.clone(), text("ds_1"))
        })
    }

    fn release(&self, index: u32) -> Result<(), Option<Error>> {
        self.stage.attempt(|c, ctx, fx| c.release_milestone(ctx, fx, self.id.clone(), index))
    }

    fn cancel(&self) -> Result<(), Option<Error>> {
        self.stage.attempt(|c, ctx, fx| c.cancel_commission(ctx, fx, self.id.clone()))
    }

    fn dispute(&self, by: &Address) -> Result<(), Option<Error>> {
        self.stage.attempt(|c, _, fx| c.raise_dispute(fx, self.id.clone(), by.clone()))
    }

    fn resolve(&self, award: bool, fulfiller: &Address) -> Result<(), Option<Error>> {
        self.stage.attempt(|c, ctx, fx| {
            c.resolve_dispute(ctx, fx, self.id.clone(), award, fulfiller.clone(), text("ds_1"))
        })
    }

    fn set_arbiter(&self) -> Address {
        let arbiter = self.stage.someone();
        self.stage.call(|c, _, fx| c.set_arbiter(fx, arbiter.clone()));
        arbiter
    }
}

fn milestone(amount: i128) -> Milestone {
    Milestone { description_hash: hash_of(7), amount, released: false }
}

fn expect<T>(answer: Result<T, Option<Error>>) -> T {
    match answer {
        Ok(value) => value,
        Err(Some(e)) => panic!("{}: Error(Contract, #{})", e.message(), e.code()),
        Err(None) => panic!("the host refused the call"),
    }
}

// Posting.

#[test]
#[should_panic(expected = "metadata hash cannot be zero")]
fn test_post_commission_zero_hash_panics() {
    let (stage, _admin) = started();
    let commissioner = stage.someone();
    let bounty_token = stage.someone();
    expect(post(&stage, &commissioner, &bounty_token, Hash32 { bytes: [0u8; 32] }, 1000));
}

#[test]
fn test_post_commission_valid_hash_succeeds() {
    let p = posted();
    assert_eq!(p.id, "com_1");
}

#[test]
fn posting_moves_the_bounty_into_escrow() {
    let p = posted();
    assert_eq!(p.balance(&p.commissioner), 0);
    assert_eq!(p.escrow(), 1000);
    let c = p.commission();
    assert_eq!(c.commissioner, p.commissioner);
    assert_eq!(c.bounty_amount, 1000);
    assert_eq!(c.state, CommissionState::Open);
    assert_eq!(p.stage.contract.borrow().commission_count(), 1);
    assert_eq!(p.stage.contract.borrow().commission_count_by_lang(&text("en")), 1);
    assert_eq!(p.stage.contract.borrow().commission_count_by_lang(&text("yo")), 0);
}

#[test]
fn posting_is_refused_without_a_positive_bounty_or_a_future_deadline() {
    let (stage, _admin) = started();
    let who = stage.someone();
    let token = stage.someone();
    for amount in [0, -1] {
        assert_eq!(
            post(&stage, &who, &token, hash_of(1), amount),
            Err(Some(Error::BountyMustBePositive))
        );
    }
    stage.at_ledger(9999999);
    assert_eq!(
        post(&stage, &who, &token, hash_of(1), 1),
        Err(Some(Error::DeadlineMustBeInTheFuture))
    );
}

#[test]
fn a_bounty_that_cannot_be_paid_leaves_nothing_behind() {
    let p = posted();
    assert_eq!(post(&p.stage, &p.commissioner, &p.token, hash_of(2), 5), Err(None));
    assert_eq!(p.stage.contract.borrow().commission_count(), 1);
    assert_eq!(p.escrow(), 1000);
}

#[test]
fn the_counters_of_all_languages_add_up() {
    let me = |s: &str| Address { strkey: text(s) };
    let ctx = Context { sequence: 1, timestamp: 0, contract: me("contract") };
    let mut contract = DataCommission::new();
    for language in ["yo", "ha", "yo", "ig", "yo"] {
        let mut fx = Effects::new();
        contract
            .post_commission(
                &ctx,
                &mut fx,
                me("buyer"),
                text(language),
                hash_of(1),
                me("token"),
                5,
                1,
                1,
                9,
            )
            .unwrap();
    }
    let counts = ["yo", "ha", "ig"].map(|l| contract.commission_count_by_lang(&text(l)));
    assert_eq!(counts, [3, 1, 1]);
    assert_eq!(counts.iter().sum::<u32>(), contract.commission_count());
}

#[test]
fn every_posting_gets_the_next_id() {
    let p = posted();
    let env = &p.stage.env;
    StellarAssetClient::new(env, &account(env, &p.token))
        .mint(&account(env, &p.commissioner), &30);
    for n in 2..5 {
        let id = post(&p.stage, &p.commissioner, &p.token, hash_of(n), 10).unwrap();
        assert_eq!(id, format!("com_{}", n));
    }
    assert_eq!(p.commission().bounty_amount, 1000);
    assert_eq!(p.stage.contract.borrow().commission_count_by_lang(&text("en")), 4);
}

// The admin.

#[test]
fn test_admin_handoff_propose_then_accept() {
    let (stage, _admin) = started();
    let new_admin = stage.someone();
    stage.call(|c, _, fx| c.propose_admin(fx, new_admin.clone()));
    stage.call(|c, _, fx| c.accept_admin(fx));

    let another = stage.someone();
    stage.call(|c, _, fx| c.propose_admin(fx, another));
    assert_eq!(stage.contract.borrow().governance.admin, Some(new_admin));
}

#[test]
#[should_panic(expected = "no admin proposal pending")]
fn test_accept_admin_without_proposal_panics() {
    let (stage, _admin) = started();
    stage.call(|c, _, fx| c.accept_admin(fx));
}

#[test]
fn a_contract_is_initialized_once_and_before_anything_else_of_the_admin() {
    let stage = Stage::new();
    let admin = stage.someone();
    assert_eq!(
        stage.attempt(|c, _, fx| c.propose_admin(fx, admin.clone())),
        Err(Some(Error::NotInitialized))
    );
    assert_eq!(
        stage.attempt(|c, _, fx| c.set_arbiter(fx, admin.clone())),
        Err(Some(Error::NotInitialized))
    );
    stage.call(|c, _, fx| c.initialize(fx, admin.clone()));
    assert_eq!(
        stage.attempt(|c, _, fx| c.initialize(fx, admin.clone())),
        Err(Some(Error::AlreadyInitialized))
    );
}

#[test]
fn a_successor_becomes_admin_only_by_signing() {
    let (stage, admin) = started();
    let successor = stage.someone();
    stage.call(|c, _, fx| c.propose_admin(fx, successor.clone()));
    stage.env.set_auths(&[]);
    assert_eq!(stage.attempt(|c, _, fx| c.accept_admin(fx)), Err(None));
    assert_eq!(stage.contract.borrow().governance.admin, Some(admin));
}

// Milestones.

#[test]
fn test_set_milestones_and_release_pays_out_per_tranche() {
    let p = posted();
    expect(p.set_milestones(&[600, 400]));

    let fulfiller = p.stage.someone();
    expect(p.fulfil(&fulfiller));

    // Milestone commissions stay open until every tranche is released.
    assert_eq!(p.commission().state, CommissionState::Open);

    expect(p.release(0));
    let after_first = p.commission();
    assert_eq!(after_first.state, CommissionState::Open);
    assert!(after_first.milestones[0].released);
    assert!(!after_first.milestones[1].released);
    assert_eq!(p.balance(&fulfiller), 600);

    expect(p.release(1));
    assert_eq!(p.commission().state, CommissionState::Fulfilled);
    assert_eq!(p.balance(&fulfiller), 1000);
    assert_eq!(p.escrow(), 0);
}

#[test]
#[should_panic(expected = "milestone amounts must sum to the bounty amount")]
fn test_set_milestones_rejects_mismatched_total() {
    let p = posted();
    // Sums to 900, not 1000.
    expect(p.set_milestones(&[600, 300]));
}

#[test]
#[should_panic(expected = "milestone already released")]
fn test_release_milestone_twice_panics() {
    let p = posted();
    // Two milestones, so that the first release does not fulfil the commission.
    expect(p.set_milestones(&[600, 400]));
    expect(p.fulfil(&p.stage.someone()));
    expect(p.release(0));
    expect(p.release(0));
}

#[test]
fn test_cancel_after_partial_milestone_release_refunds_only_remainder() {
    let p = posted();
    expect(p.set_milestones(&[600, 400]));
    expect(p.fulfil(&p.stage.someone()));
    expect(p.release(0));

    let before = p.balance(&p.commissioner);
    expect(p.cancel());
    assert_eq!(p.balance(&p.commissioner) - before, 400);
    assert_eq!(p.escrow(), 0);
    assert_eq!(p.commission().state, CommissionState::Cancelled);
}

// Other ways to close a commission.

#[test]
fn without_milestones_fulfilling_pays_the_whole_bounty() {
    let p = posted();
    let fulfiller = p.stage.someone();
    expect(p.fulfil(&fulfiller));
    assert_eq!(p.balance(&fulfiller), 1000);
    let c = p.commission();
    assert_eq!(c.state, CommissionState::Fulfilled);
    assert_eq!(c.fulfiller, Some(fulfiller.clone()));
    assert_eq!(c.fulfilled_dataset_id, Some(text("ds_1")));
    assert_eq!(p.fulfil(&fulfiller), Err(Some(Error::CommissionNotOpen)));
}

#[test]
fn cancelling_refunds_the_whole_bounty() {
    let p = posted();
    expect(p.cancel());
    assert_eq!(p.balance(&p.commissioner), 1000);
    assert_eq!(p.escrow(), 0);
    assert!(p.cancel().is_err());
    assert!(p.fulfil(&p.stage.someone()).is_err());
    assert_eq!(p.escrow(), 0);
}

#[test]
fn a_late_delivery_is_refused() {
    let p = posted();
    p.stage.at_ledger(10_000_000);
    assert_eq!(p.fulfil(&p.stage.someone()), Err(Some(Error::CommissionDeadlinePassed)));
}

#[test]
fn a_dispute_is_resolved_by_the_arbiter_either_way() {
    let p = posted();
    p.set_arbiter();
    expect(p.dispute(&p.commissioner));
    assert_eq!(p.commission().state, CommissionState::Disputed);
    assert!(p.cancel().is_err());
    let fulfiller = p.stage.someone();
    expect(p.resolve(true, &fulfiller));
    assert_eq!(p.balance(&fulfiller), 1000);
    assert_eq!(p.commission().state, CommissionState::Fulfilled);

    let q = posted();
    q.set_arbiter();
    expect(q.dispute(&q.commissioner));
    expect(q.resolve(false, &q.stage.someone()));
    assert_eq!(q.balance(&q.commissioner), 1000);
    assert_eq!(q.commission().state, CommissionState::Cancelled);
}

#[test]
fn unknown_commissions_are_not_found() {
    let (stage, _admin) = started();
    let who = stage.someone();
    assert_eq!(
        stage.contract.borrow().get_commission(&text("com_9")),
        Err(Error::CommissionNotFound)
    );
    assert_eq!(
        stage.attempt(|c, ctx, fx| c.cancel_commission(ctx, fx, text("com_9"))),
        Err(Some(Error::CommissionNotFound))
    );
    assert_eq!(
        stage.attempt(|c, _, fx| c.renew_commission_ttl(fx, text("com_9"))),
        Err(Some(Error::CommissionNotFound))
    );
    assert_eq!(
        stage.attempt(|c, _, fx| c.raise_dispute(fx, text("com_9"), who)),
        Err(Some(Error::CommissionNotFound))
    );
}

// The freeze.

#[test]
fn test_a_fresh_contract_is_not_paused() {
    let (stage, _admin) = started();
    assert!(!stage.contract.borrow().is_paused());
}

#[test]
fn test_pause_then_unpause_round_trips() {
    let (stage, _admin) = started();

    stage.call(|c, ctx, fx| c.pause(ctx, fx));
    assert!(stage.contract.borrow().is_paused());

    stage.call(|c, ctx, fx| c.unpause(ctx, fx));
    assert!(!stage.contract.borrow().is_paused());
}

#[test]
fn test_a_write_is_rejected_while_paused() {
    let (stage, _admin) = started();
    stage.call(|c, ctx, fx| c.pause(ctx, fx));
    let arbiter = stage.someone();
    assert_eq!(
        stage.attempt(|c, _, fx| c.set_arbiter(fx, arbiter)),
        Err(Some(Error::ContractPaused))
    );
}

#[test]
fn test_the_same_write_succeeds_once_unpaused() {
    let (stage, _admin) = started();
    stage.call(|c, ctx, fx| c.pause(ctx, fx));
    let arbiter = stage.someone();
    assert_eq!(
        stage.attempt(|c, _, fx| c.set_arbiter(fx, arbiter)),
        Err(Some(Error::ContractPaused))
    );

    // The freeze is reversible and leaves the contract working as before.
    stage.call(|c, ctx, fx| c.unpause(ctx, fx));
    let arbiter = stage.someone();
    stage.call(|c, _, fx| c.set_arbiter(fx, arbiter));
    assert!(!stage.contract.borrow().is_paused());
}

#[test]
fn test_reads_still_answer_while_paused() {
    let (stage, _admin) = started();
    stage.call(|c, ctx, fx| c.pause(ctx, fx));
    assert!(stage.contract.borrow().is_paused());
    assert_eq!(DataCommission::version(), 2);
}

#[test]
fn test_a_non_admin_cannot_pause() {
    let (stage, _admin) = started();
    stage.env.set_auths(&[]);
    assert!(stage.attempt(|c, ctx, fx| c.pause(ctx, fx)).is_err());
    assert!(!stage.contract.borrow().is_paused());
}

#[test]
fn test_pausing_twice_is_rejected() {
    let (stage, _admin) = started();
    stage.call(|c, ctx, fx| c.pause(ctx, fx));
    assert_eq!(
        stage.attempt(|c, ctx, fx| c.pause(ctx, fx)),
        Err(Some(Error::AlreadyPaused))
    );
    assert!(stage.contract.borrow().is_paused());
}

#[test]
fn test_unpausing_a_live_contract_is_rejected() {
    let (stage, _admin) = started();
    assert_eq!(
        stage.attempt(|c, ctx, fx| c.unpause(ctx, fx)),
        Err(Some(Error::NotPaused))
    );
    assert!(!stage.contract.borrow().is_paused());
}

#[test]
fn every_write_is_refused_while_frozen_without_asking_anyone() {
    let p = posted();
    p.stage.call(|c, ctx, fx| c.pause(ctx, fx));
    // Nobody's authorization could be given now, and none is asked for.
    p.stage.env.set_auths(&[]);
    let who = p.stage.someone();
    let frozen = Err(Some(Error::ContractPaused));
    assert_eq!(p.set_milestones(&[1000]), frozen);
    assert_eq!(p.fulfil(&who), frozen);
    assert_eq!(p.release(0), frozen);
    assert_eq!(p.cancel(), frozen);
    assert_eq!(p.dispute(&who), frozen);
    assert_eq!(p.resolve(true, &who), frozen);
    assert!(post(&p.stage, &who, &p.token, hash_of(3), 5) == Err(Some(Error::ContractPaused)));
    // Renewals go on.
    expect(p.stage.attempt(|c, _, fx| c.renew_commission_ttl(fx, p.id.clone())));
    assert_eq!(p.escrow(), 1000);
}

// Lifetimes.

#[test]
fn every_write_keeps_the_commission() {
    let p = posted();
    let key = || StorageKey::Commission(p.id.clone());
    assert_eq!(p.stage.ttl_of(key()), p.stage.full_window());
    p.stage.advance(100_000);
    assert!(p.stage.ttl_of(key()) < p.stage.full_window());
    expect(p.set_milestones(&[600, 400]));
    assert_eq!(p.stage.ttl_of(key()), p.stage.full_window());
    p.stage.advance(100_000);
    expect(p.fulfil(&p.stage.someone()));
    assert_eq!(p.stage.ttl_of(key()), p.stage.full_window());
    p.stage.advance(100_000);
    p.stage.env.set_auths(&[]);
    expect(p.stage.attempt(|c, _, fx| c.renew_commission_ttl(fx, p.id.clone())));
    assert_eq!(p.stage.ttl_of(key()), p.stage.full_window());
}

// What every call asks of the host.

#[test]
fn a_posting_asks_for_a_signature_an_escrow_and_an_event() {
    let mut contract = DataCommission::new();
    let mut fx = Effects::new();
    let me = |s: &str| Address { strkey: text(s) };
    let ctx = Context { sequence: 5, timestamp: 50, contract: me("contract") };
    let id = contract.post_commission(
        &ctx,
        &mut fx,
        me("buyer"),
        text("yo"),
        hash_of(4),
        me("token"),
        70,
        1,
        2,
        6,
    );
    assert_eq!(id, Ok(text("com_1")));
    assert_eq!(fx.list[0], Effect::Authorize(me("buyer")));
    assert!(fx.list.contains(&Effect::Transfer {
        token: me("token"),
        from: me("buyer"),
        to: me("contract"),
        amount: 70,
    }));
    assert!(fx.list.contains(&Effect::Extend {
        key: StorageKey::Commission(text("com_1")),
        threshold: 7_776_000,
        extend_to: 7_776_000,
    }));
}

// Errors.

#[test]
fn milestones_that_do_not_fit_are_refused() {
    let p = posted();
    let fault = |milestones: Vec<Milestone>| {
        p.stage.attempt(|c, _, fx| c.set_milestones(fx, p.id.clone(), milestones))
    };
    assert_eq!(fault(vec![]), Err(Some(Error::MustProvideAtLeastOneMilestone)));
    assert_eq!(
        fault(vec![milestone(1000), milestone(0)]),
        Err(Some(Error::MilestoneAmountMustBePositive))
    );
    let released = Milestone { released: true, ..milestone(1000) };
    assert_eq!(fault(vec![released]), Err(Some(Error::NewMilestonesCannotStartReleased)));
    assert_eq!(
        fault(vec![milestone(999)]),
        Err(Some(Error::MilestoneAmountsMustSumToBounty))
    );
    expect(p.set_milestones(&[1000]));
    expect(p.fulfil(&p.stage.someone()));
    assert_eq!(fault(vec![milestone(1000)]), Err(Some(Error::CommissionAlreadyFulfilled)));
}

#[test]
fn a_release_needs_a_fulfiller_and_a_milestone() {
    let p = posted();
    expect(p.set_milestones(&[600, 400]));
    assert_eq!(p.release(0), Err(Some(Error::CommissionHasNoFulfillerYet)));
    expect(p.fulfil(&p.stage.someone()));
    assert_eq!(p.release(2), Err(Some(Error::MilestoneIndexOutOfRange)));
    expect(p.release(1));
    assert_eq!(p.release(1), Err(Some(Error::MilestoneAlreadyReleased)));
    expect(p.release(0));
    assert_eq!(p.release(0), Err(Some(Error::CommissionNotOpen)));
    assert_eq!(p.escrow(), 0);
}

#[test]
fn a_dispute_needs_the_commissioner_and_an_arbiter() {
    let p = posted();
    let stranger = p.stage.someone();
    assert_eq!(p.dispute(&stranger), Err(Some(Error::OnlyCommissionerCanRaiseDispute)));
    assert_eq!(p.resolve(true, &stranger), Err(Some(Error::NoArbiterSet)));
    p.set_arbiter();
    assert_eq!(p.resolve(true, &stranger), Err(Some(Error::CommissionNotDisputed)));
    expect(p.dispute(&p.commissioner));
    assert_eq!(p.dispute(&p.commissioner), Err(Some(Error::CommissionNotOpen)));
    assert_eq!(p.escrow(), 1000);
}

#[test]
fn nothing_is_disputed_once_a_tranche_is_paid() {
    let p = posted();
    p.set_arbiter();
    expect(p.set_milestones(&[600, 400]));
    let fulfiller = p.stage.someone();
    expect(p.fulfil(&fulfiller));
    expect(p.release(0));
    // A ruling is on the whole bounty, of which 600 are gone.
    assert_eq!(p.dispute(&p.commissioner), Err(Some(Error::CommissionNotOpen)));
    assert_eq!(p.escrow(), 400);
    expect(p.release(1));
    assert_eq!(p.balance(&fulfiller), 1000);
    assert_eq!(p.escrow(), 0);
}

#[test]
fn an_early_cancellation_needs_the_commissioner_and_a_late_one_nobody() {
    let p = posted();
    p.stage.env.set_auths(&[]);
    assert_eq!(p.cancel(), Err(None));
    p.stage.at_ledger(9_999_999);
    assert_eq!(p.cancel(), Err(None));
    assert_eq!(p.escrow(), 1000);
}

#[test]
fn a_late_cancellation_asks_nobody() {
    let me = |s: &str| Address { strkey: text(s) };
    let at = |sequence: u32| Context { sequence, timestamp: 0, contract: me("contract") };
    let mut contract = DataCommission::new();
    let mut fx = Effects::new();
    let (buyer, token) = (me("buyer"), me("token"));
    contract
        .post_commission(&at(1), &mut fx, buyer, text("yo"), hash_of(4), token, 70, 1, 2, 6)
        .unwrap();
    let mut fx = Effects::new();
    contract.cancel_commission(&at(7), &mut fx, text("com_1")).unwrap();
    assert_eq!(
        fx.list[0],
        Effect::Transfer { token: me("token"), from: me("contract"), to: me("buyer"), amount: 70 }
    );
    assert!(!fx.list.iter().any(|e| matches!(e, Effect::Authorize(_))));
}

#[test]
fn every_error_has_its_own_code_and_text() {
    let all = [
        Error::AlreadyInitialized,
        Error::NotInitialized,
        Error::NoAdminProposalPending,
        Error::MetadataHashCannotBeZero,
        Error::BountyMustBePositive,
        Error::DeadlineMustBeInTheFuture,
        Error::CommissionNotFound,
        Error::CommissionNotOpen,
        Error::CommissionDeadlinePassed,
        Error::CommissionAlreadyFulfilled,
        Error::MustProvideAtLeastOneMilestone,
        Error::MilestoneAmountMustBePositive,
        Error::NewMilestonesCannotStartReleased,
        Error::MilestoneAmountsMustSumToBounty,
        Error::CommissionHasNoFulfillerYet,
        Error::MilestoneIndexOutOfRange,
        Error::MilestoneAlreadyReleased,
        Error::OnlyCommissionerCanRaiseDispute,
        Error::NoArbiterSet,
        Error::CommissionNotDisputed,
        Error::ContractPaused,
        Error::AlreadyPaused,
        Error::NotPaused,
    ];
    for (place, error) in all.iter().enumerate() {
        assert_eq!(error.code() as usize, place + 1);
        for other in &all[..place] {
            assert_ne!(error.message(), other.message());
        }
    }
}
