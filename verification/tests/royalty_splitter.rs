//! Royalties, on a real ledger.
#![allow(deprecated)]

use data_market::quality_oracle::QualityOracle;
use data_market::royalty_splitter::payout::{fee_of, is_divisible, payouts_of};
use data_market::royalty_splitter::{
    tier_label, DatasetQuality, Error, QualityTier, Record, RoyaltySplitter, SplitConfig,
};
use data_market::host::{
    Address, Context, Effect, Effects, Hash32, StorageKey, Value, PERSISTENT_TTL,
};
use soroban_sdk::testutils::{
    storage::Persistent as _, Address as _, ContractFunctionSet, EnvTestConfig, Ledger as _,
};
use soroban_sdk::token::{Client as TokenClient, StellarAssetClient};
use soroban_sdk::{
    Address as Account, BytesN, Env, IntoVal, InvokeError, String as Text, Symbol, Val, Vec as List,
};
use std::cell::RefCell;
use std::rc::Rc;

/// A ledger, and a contract on it in whose name effects are carried out.
struct Stage {
    env: Env,
    address: Account,
    job: Rc<RefCell<Vec<Effect>>>,
    contract: RefCell<RoyaltySplitter>,
}

struct Actor {
    job: Rc<RefCell<Vec<Effect>>>,
}

impl ContractFunctionSet for Actor {
    fn call(&self, _name: &str, env: Env, _args: &[Val]) -> Option<Val> {
        for effect in self.job.borrow().iter() {
            carry_out(&env, effect);
        }
        Some(().into_val(&env))
    }
}

fn account(env: &Env, who: &Address) -> Account {
    Account::from_str(env, &who.strkey)
}

fn name_of(env: &Env, key: &StorageKey) -> Text {
    Text::from_str(env, &format!("{:?}", key))
}

fn value(env: &Env, item: &Value) -> Val {
    match item {
        Value::Text(x) => Text::from_str(env, x).into_val(env),
        Value::Account(x) => account(env, x).into_val(env),
        Value::Digest(x) => BytesN::from_array(env, &x.bytes).into_val(env),
        Value::U32(x) => x.into_val(env),
        Value::U64(x) => x.into_val(env),
        Value::I128(x) => x.into_val(env),
        Value::Flag(x) => x.into_val(env),
        Value::Variant(x) => (Symbol::new(env, x),).into_val(env),
    }
}

fn carry_out(env: &Env, effect: &Effect) {
    match effect {
        Effect::Authorize(who) => account(env, who).require_auth(),
        Effect::Transfer { token, from, to, amount } => {
            TokenClient::new(env, &account(env, token)).transfer(
                &account(env, from),
                &account(env, to),
                amount,
            );
        }
        Effect::Extend { key: StorageKey::Instance, threshold, extend_to } => {
            env.storage().instance().extend_ttl(*threshold, *extend_to);
        }
        Effect::Extend { key, threshold, extend_to } => {
            let entries = env.storage().persistent();
            let name = name_of(env, key);
            if !entries.has(&name) {
                entries.set(&name, &true);
            }
            entries.extend_ttl(&name, *threshold, *extend_to);
        }
        Effect::Publish { group, name, data } => {
            let topics = (Symbol::new(env, group), Symbol::new(env, name));
            if data.len() == 1 {
                env.events().publish(topics, value(env, &data[0]));
            } else {
                let mut items: List<Val> = List::new(env);
                for item in data {
                    items.push_back(value(env, item));
                }
                env.events().publish(topics, items);
            }
        }
        Effect::Upgrade(hash) => {
            let hash = BytesN::from_array(env, &hash.bytes);
            env.deployer().update_current_contract_wasm(hash);
        }
    }
}

impl Stage {
    fn new() -> Stage {
        let env = Env::new_with_config(EnvTestConfig { capture_snapshot_at_drop: false });
        env.mock_all_auths();
        Stage::on(&env)
    }

    fn on(env: &Env) -> Stage {
        let job = Rc::new(RefCell::new(Vec::new()));
        let address = env.register_contract(None, Actor { job: job.clone() });
        let contract = RefCell::new(RoyaltySplitter::new());
        Stage { env: env.clone(), address, job, contract }
    }

    fn someone(&self) -> Address {
        address_of(&Account::generate(&self.env))
    }

    fn context(&self) -> Context {
        Context {
            sequence: self.env.ledger().sequence(),
            timestamp: self.env.ledger().timestamp(),
            contract: address_of(&self.address),
        }
    }

    /// Makes a call. `Err(None)` where the host refused what the call asked.
    fn attempt<T>(
        &self,
        call: impl FnOnce(&mut RoyaltySplitter, &Context, &mut Effects) -> Result<T, Error>,
    ) -> Result<T, Option<Error>> {
        let mut next = self.contract.borrow().clone();
        let mut fx = Effects::new();
        let answer = call(&mut next, &self.context(), &mut fx);
        *self.job.borrow_mut() = fx.list;
        let run = Symbol::new(&self.env, "run");
        let done = self.env.try_invoke_contract::<(), InvokeError>(
            &self.address,
            &run,
            List::new(&self.env),
        );
        if done.is_err() {
            return Err(None);
        }
        match answer {
            Ok(value) => {
                *self.contract.borrow_mut() = next;
                Ok(value)
            }
            Err(e) => Err(Some(e)),
        }
    }

    /// Makes a call that has to go through.
    fn call<T>(
        &self,
        call: impl FnOnce(&mut RoyaltySplitter, &Context, &mut Effects) -> Result<T, Error>,
    ) -> T {
        match self.attempt(call) {
            Ok(value) => value,
            Err(Some(e)) => panic!("{}: Error(Contract, #{})", e.message(), e.code()),
            Err(None) => panic!("the host refused the call"),
        }
    }

    /// Reads what has to be there.
    fn read<T>(&self, read: impl FnOnce(&RoyaltySplitter) -> Result<T, Error>) -> T {
        match read(&self.contract.borrow()) {
            Ok(value) => value,
            Err(e) => panic!("{}: Error(Contract, #{})", e.message(), e.code()),
        }
    }

    fn advance(&self, ledgers: u32) {
        self.env.ledger().with_mut(|l| l.sequence_number += ledgers);
    }

    fn ttl_of(&self, key: StorageKey) -> u32 {
        let name = name_of(&self.env, &key);
        self.env.as_contract(&self.address, || {
            self.env.storage().persistent().get_ttl(&name)
        })
    }

    /// The host caps every entry, so a full window is the smaller of the two.
    fn full_window(&self) -> u32 {
        PERSISTENT_TTL.min(self.env.ledger().get().max_entry_ttl - 1)
    }
}

fn address_of(account: &Account) -> Address {
    let text = account.to_string();
    let mut bytes = vec![0u8; text.len() as usize];
    text.copy_into_slice(&mut bytes);
    Address { strkey: String::from_utf8(bytes).unwrap() }
}

fn text(s: &str) -> String {
    String::from(s)
}

const DATASET: &str = "ds_1";

/// A splitter with an admin, a token and some of it.
struct Fixture {
    stage: Stage,
    token: Address,
    treasury: Address,
    oracle: RefCell<QualityOracle>,
}

fn setup(funding: i128) -> Fixture {
    let stage = Stage::new();
    let admin = stage.someone();
    let treasury = stage.someone();
    let issuer = Account::generate(&stage.env);
    let token = stage.env.register_stellar_asset_contract_v2(issuer).address();
    stage.call(|c, _, fx| c.initialize(fx, admin.clone()));
    if funding > 0 {
        StellarAssetClient::new(&stage.env, &token).mint(&stage.address, &funding);
    }
    let token = address_of(&token);
    let oracle = RefCell::new(QualityOracle::new());
    Fixture { stage, token, treasury, oracle }
}

impl Fixture {
    fn balance(&self, who: &Address) -> i128 {
        let env = &self.stage.env;
        TokenClient::new(env, &account(env, &self.token)).balance(&account(env, who))
    }

    fn held(&self) -> i128 {
        self.balance(&address_of(&self.stage.address))
    }

    fn config(&self, dataset_id: &str, contributors: Vec<(Address, u32)>) -> SplitConfig {
        SplitConfig {
            dataset_id: text(dataset_id),
            token: self.token.clone(),
            treasury: self.treasury.clone(),
            contributors,
        }
    }

    fn register(&self, contributors: Vec<(Address, u32)>) {
        let config = self.config(DATASET, contributors);
        self.stage.call(|c, _, fx| c.register_split(fx, config));
    }

    fn try_distribute(&self, dataset_id: &str, amount: i128) -> Result<(), Option<Error>> {
        let dataset_id = text(dataset_id);
        let splitter = self.stage.contract.borrow().clone();
        let balance = match splitter.token_to_check(&dataset_id) {
            Some(token) if token == self.token => self.held(),
            _ => 0,
        };
        let reply = match splitter.oracle_to_ask() {
            Some(_) => self.oracle.borrow().get_quality(&dataset_id).ok(),
            None => None,
        };
        self.stage.attempt(|c, ctx, fx| c.distribute(ctx, fx, dataset_id, amount, balance, reply))
    }

    fn distribute(&self, dataset_id: &str, amount: i128) {
        match self.try_distribute(dataset_id, amount) {
            Ok(()) => {}
            Err(Some(e)) => panic!("{}: Error(Contract, #{})", e.message(), e.code()),
            Err(None) => panic!("the host refused the call"),
        }
    }

    /// Sets an oracle that rated `dataset_id`, where there is a score.
    fn with_oracle(&self, dataset_id: &str, score: Option<u32>) {
        let oracle_address = self.stage.someone();
        self.stage.call(|c, _, fx| c.set_oracle(fx, oracle_address));
        let mut oracle = self.oracle.borrow_mut();
        let mut fx = Effects::new();
        oracle.initialize(&mut fx, self.stage.someone()).unwrap();
        if let Some(score) = score {
            let curator = self.stage.someone();
            oracle.register_curator(&mut fx, curator.clone()).unwrap();
            let rubric = Hash32 { bytes: [1u8; 32] };
            let ctx = self.stage.context();
            oracle
                .attest_quality(&ctx, &mut fx, curator, text(dataset_id), score, rubric)
                .unwrap();
        }
    }

    fn key(&self, name: &str) -> StorageKey {
        StorageKey::Record(text(name))
    }
}

// Payouts.

#[test]
fn test_distribute_pays_treasury_five_percent_and_splits_remainder() {
    let f = setup(1_000_000);
    let alice = f.stage.someone();
    let bob = f.stage.someone();
    f.register(vec![(alice.clone(), 7000), (bob.clone(), 3000)]);

    f.distribute(DATASET, 1_000_000);

    // 5% of 1,000,000 = 50,000; the remaining 950,000 splits 70/30.
    assert_eq!(f.balance(&f.treasury), 50_000);
    assert_eq!(f.balance(&alice), 665_000);
    assert_eq!(f.balance(&bob), 285_000);
    assert_eq!(f.held(), 0);
}

#[test]
fn test_contributor_payouts_sum_exactly_to_total_minus_fee_with_dust() {
    let f = setup(1_000);
    let a = f.stage.someone();
    let b = f.stage.someone();
    let c = f.stage.someone();
    f.register(vec![(a.clone(), 3333), (b.clone(), 3333), (c.clone(), 3334)]);

    f.distribute(DATASET, 1_000);

    let fee = f.balance(&f.treasury);
    assert_eq!(fee, 50); // 1000 * 500 / 10000

    let paid = f.balance(&a) + f.balance(&b) + f.balance(&c);
    assert_eq!(paid, 1_000 - fee);

    // Nothing is stranded in the contract.
    assert_eq!(f.held(), 0);

    // What rounding left over lands on the largest shareholder.
    assert_eq!(f.balance(&a), 316);
    assert_eq!(f.balance(&b), 316);
    assert_eq!(f.balance(&c), 318);
}

#[test]
fn test_repeated_distributions_never_strand_dust() {
    let f = setup(3_000);
    let a = f.stage.someone();
    let b = f.stage.someone();
    let c = f.stage.someone();
    f.register(vec![(a.clone(), 3333), (b.clone(), 3333), (c.clone(), 3334)]);

    for _ in 0..3 {
        f.distribute(DATASET, 1_000);
    }

    assert_eq!(f.held(), 0);
    assert_eq!(f.stage.contract.borrow().payout_count(), 3);
}

#[test]
fn test_single_contributor_receives_entire_distributable() {
    let f = setup(10_000);
    let solo = f.stage.someone();
    f.register(vec![(solo.clone(), 10000)]);

    f.distribute(DATASET, 10_000);

    assert_eq!(f.balance(&f.treasury), 500);
    assert_eq!(f.balance(&solo), 9_500);
    assert_eq!(f.held(), 0);
}

#[test]
fn test_payout_record_is_persisted_with_ledger() {
    let f = setup(1_000_000);
    let alice = f.stage.someone();
    f.register(vec![(alice.clone(), 10000)]);

    assert_eq!(f.stage.contract.borrow().payout_count(), 0);
    f.distribute(DATASET, 400_000);
    assert_eq!(f.stage.contract.borrow().payout_count(), 1);

    let record = f.stage.read(|c| c.get_payout(1));
    assert_eq!(record.dataset_id, DATASET);
    assert_eq!(record.total_amount, 400_000);
    assert_eq!(record.tx_count, 1);
    assert_eq!(record.ledger, f.stage.env.ledger().sequence());
}

#[test]
#[should_panic(expected = "Error(Contract, #6)")]
fn test_zero_amount_distribute_panics() {
    let f = setup(1_000);
    f.register(vec![(f.stage.someone(), 10000)]);
    f.distribute(DATASET, 0);
}

#[test]
#[should_panic(expected = "Error(Contract, #6)")]
fn test_distribute_zero_amount() {
    let stage = Stage::new();
    let admin = stage.someone();
    stage.call(|c, _, fx| c.initialize(fx, admin));
    let config = SplitConfig {
        dataset_id: text("ds_3"),
        token: stage.someone(),
        treasury: stage.someone(),
        contributors: vec![(stage.someone(), 10000)],
    };
    stage.call(|c, _, fx| c.register_split(fx, config));
    stage.call(|c, ctx, fx| c.distribute(ctx, fx, text("ds_3"), 0, 0, None));
}

#[test]
#[should_panic(expected = "Error(Contract, #6)")]
fn test_negative_amount_distribute_panics() {
    let f = setup(1_000);
    f.register(vec![(f.stage.someone(), 10000)]);
    f.distribute(DATASET, -1);
}

#[test]
#[should_panic(expected = "Error(Contract, #7)")]
fn test_distribute_beyond_balance_panics_before_transferring() {
    let f = setup(100);
    f.register(vec![(f.stage.someone(), 10000)]);

    // Funded with 100; asking for 1000 must fail before any transfer runs.
    f.distribute(DATASET, 1_000);
}

#[test]
fn a_short_balance_moves_and_records_nothing() {
    let f = setup(100);
    let alice = f.stage.someone();
    f.register(vec![(alice.clone(), 10000)]);
    assert_eq!(
        f.try_distribute(DATASET, 101),
        Err(Some(Error::InsufficientContractBalance))
    );
    assert_eq!(f.held(), 100);
    assert_eq!(f.balance(&alice), 0);
    assert_eq!(f.stage.contract.borrow().payout_count(), 0);
    f.distribute(DATASET, 100);
    assert_eq!(f.balance(&alice), 95);
    assert_eq!(f.balance(&f.treasury), 5);
}

#[test]
fn the_balance_falls_by_the_sum_of_the_payouts() {
    let f = setup(10_000);
    f.register(vec![(f.stage.someone(), 3333), (f.stage.someone(), 6667)]);
    let mut left = 10_000;
    for amount in [7, 1, 999, 19, 20, 4_321] {
        f.distribute(DATASET, amount);
        left -= amount;
        assert_eq!(f.held(), left);
    }
    assert!(f.try_distribute(DATASET, left + 1).is_err());
    assert_eq!(f.held(), left);
}

#[test]
fn a_split_under_the_name_of_a_receipt_pays_all_the_same() {
    let f = setup(2_000);
    let alice = f.stage.someone();
    let config = f.config("pay_9", vec![(alice.clone(), 3333), (f.stage.someone(), 6667)]);
    f.stage.call(|c, _, fx| c.register_split(fx, config));
    f.distribute("pay_9", 1_000);
    assert_eq!(f.held(), 1_000);
    assert_eq!(f.balance(&f.treasury), 50);
    assert_eq!(f.balance(&alice), 316);
}

#[test]
fn the_oracle_decides_nothing_but_the_label() {
    let me = |s: &str| Address { strkey: text(s) };
    let ctx = Context { sequence: 9, timestamp: 90, contract: me("contract") };
    let pay = |tier: Option<QualityTier>| {
        let mut splitter = RoyaltySplitter::new();
        let mut fx = Effects::new();
        splitter.initialize(&mut fx, me("admin")).unwrap();
        splitter.set_oracle(&mut fx, me("oracle")).unwrap();
        let config = SplitConfig {
            dataset_id: text("ds"),
            token: me("token"),
            treasury: me("treasury"),
            contributors: vec![(me("one"), 4000), (me("two"), 6000)],
        };
        splitter.register_split(&mut fx, config).unwrap();
        let reply = tier.map(|tier| DatasetQuality {
            dataset_id: text("ds"),
            average_score: 0,
            attestation_count: 0,
            last_updated_ledger: 0,
            tier,
        });
        let mut fx = Effects::new();
        splitter.distribute(&ctx, &mut fx, text("ds"), 777, 777, reply).unwrap();
        let label = splitter.get_payout(1).unwrap().quality_tier;
        fx.list.pop();
        (fx.list, label)
    };
    let (unrated, label) = pay(None);
    assert_eq!(label, "Unrated");
    let (gold, label) = pay(Some(QualityTier::Gold));
    assert_eq!(label, "Gold");
    assert_eq!(unrated, gold);
}

#[test]
fn the_first_of_the_largest_shares_gets_the_dust() {
    let shares = |bps: &[u32]| -> Vec<(Address, u32)> {
        bps.iter().map(|b| (Address { strkey: text("x") }, *b)).collect()
    };
    assert_eq!(payouts_of(&shares(&[3333, 3334, 3333]), 950), vec![316, 318, 316]);
    assert_eq!(payouts_of(&shares(&[2500, 2500, 2500, 2500]), 7), vec![4, 1, 1, 1]);
    assert_eq!(payouts_of(&shares(&[1, 9999]), 1), vec![0, 1]);
    assert_eq!(payouts_of(&shares(&[10000]), 0), vec![0]);
    assert_eq!(fee_of(19), 0);
    assert_eq!(fee_of(20), 1);
    assert!(is_divisible(&shares(&[5000, 5000]), 1_000_000));
    assert!(!is_divisible(&shares(&[5000, 5000]), i128::MAX / 100));
    assert!(!is_divisible(&shares(&[]), 1));
}

#[test]
fn a_share_worth_nothing_is_not_transferred() {
    let mut splitter = RoyaltySplitter::new();
    let me = |s: &str| Address { strkey: text(s) };
    let ctx = Context { sequence: 9, timestamp: 90, contract: me("contract") };
    let mut fx = Effects::new();
    splitter.initialize(&mut fx, me("admin")).unwrap();
    let config = SplitConfig {
        dataset_id: text("ds"),
        token: me("token"),
        treasury: me("treasury"),
        contributors: vec![(me("small"), 1), (me("large"), 9999)],
    };
    splitter.register_split(&mut fx, config).unwrap();
    let mut fx = Effects::new();
    splitter.distribute(&ctx, &mut fx, text("ds"), 10, 10, None).unwrap();
    let transfer = |to: &str, amount: i128| Effect::Transfer {
        token: me("token"),
        from: me("contract"),
        to: me(to),
        amount,
    };
    let keep = |key: StorageKey| Effect::Extend {
        key,
        threshold: PERSISTENT_TTL,
        extend_to: PERSISTENT_TTL,
    };
    assert_eq!(
        fx.list,
        vec![
            Effect::Authorize(me("admin")),
            keep(StorageKey::Instance),
            transfer("treasury", 0),
            transfer("large", 10),
            keep(StorageKey::Record(text("pay_1"))),
            Effect::Publish {
                group: "royalty",
                name: "paid",
                data: vec![
                    Value::Text(text("ds")),
                    Value::I128(10),
                    Value::U32(9),
                    Value::Text(text("Unrated")),
                ],
            },
        ]
    );
}

// Quality on the receipt.

#[test]
fn test_distribute_records_quality_tier_from_oracle() {
    let f = setup(1_000_000);
    f.with_oracle("ds_gold", Some(75)); // Gold: 70-84
    let config = f.config("ds_gold", vec![(f.stage.someone(), 10000)]);
    f.stage.call(|c, _, fx| c.register_split(fx, config));

    f.distribute("ds_gold", 100_000);

    let count = f.stage.contract.borrow().payout_count();
    assert_eq!(count, 1);
    assert_eq!(f.stage.read(|c| c.get_payout(count)).quality_tier, "Gold");
}

#[test]
fn test_distribute_defaults_to_unrated_when_never_attested() {
    let f = setup(1_000_000);
    f.with_oracle("ds_never_attested", None);
    let config = f.config("ds_never_attested", vec![(f.stage.someone(), 10000)]);
    f.stage.call(|c, _, fx| c.register_split(fx, config));

    f.distribute("ds_never_attested", 100_000);

    let count = f.stage.contract.borrow().payout_count();
    assert_eq!(count, 1);
    assert_eq!(f.stage.read(|c| c.get_payout(count)).quality_tier, "Unrated");
}

#[test]
fn a_reply_without_an_oracle_does_not_count() {
    let f = setup(1_000);
    f.register(vec![(f.stage.someone(), 10000)]);
    let reply = DatasetQuality {
        dataset_id: text(DATASET),
        average_score: 90,
        attestation_count: 1,
        last_updated_ledger: 0,
        tier: QualityTier::Platinum,
    };
    f.stage.call(|c, ctx, fx| c.distribute(ctx, fx, text(DATASET), 1_000, 1_000, Some(reply)));
    assert_eq!(f.stage.read(|c| c.get_payout(1)).quality_tier, "Unrated");
}

#[test]
fn every_tier_has_its_label() {
    let labels = [
        (QualityTier::Platinum, "Platinum"),
        (QualityTier::Gold, "Gold"),
        (QualityTier::Silver, "Silver"),
        (QualityTier::Bronze, "Bronze"),
        (QualityTier::Unrated, "Unrated"),
    ];
    for (tier, label) in labels {
        assert_eq!(tier_label(&tier), label);
    }
}

// Refusals.

#[test]
fn shares_have_to_make_a_whole() {
    let f = setup(0);
    for shares in [vec![9999], vec![10001], vec![5000, 4999], vec![]] {
        let contributors = shares.iter().map(|b| (f.stage.someone(), *b)).collect();
        let config = f.config(DATASET, contributors);
        let answer = f.stage.attempt(|c, _, fx| c.register_split(fx, config));
        assert_eq!(answer, Err(Some(Error::SharesMustSumTo10000)));
    }
    assert_eq!(f.try_distribute(DATASET, 5), Err(Some(Error::SplitConfigNotFound)));
    assert_eq!(f.stage.contract.borrow().get_payout(1), Err(Error::PayoutNotFound));
}

#[test]
fn nothing_of_the_admin_goes_before_initialization() {
    let stage = Stage::new();
    let who = stage.someone();
    let config = SplitConfig {
        dataset_id: text("ds"),
        token: who.clone(),
        treasury: who.clone(),
        contributors: vec![(who.clone(), 10000)],
    };
    let missing = Err(Some(Error::NotInitialized));
    assert_eq!(stage.attempt(|c, _, fx| c.register_split(fx, config.clone())), missing);
    assert_eq!(
        stage.attempt(|c, ctx, fx| c.distribute(ctx, fx, text("ds"), 1, 1, None)),
        missing
    );
    assert_eq!(stage.attempt(|c, _, fx| c.set_oracle(fx, who.clone())), missing);
    assert_eq!(stage.attempt(|c, ctx, fx| c.pause(ctx, fx)), missing);
    stage.call(|c, _, fx| c.initialize(fx, who.clone()));
    assert_eq!(
        stage.attempt(|c, _, fx| c.initialize(fx, who.clone())),
        Err(Some(Error::AlreadyInitialized))
    );
    assert_eq!(
        stage.attempt(|c, _, fx| c.accept_admin(fx)),
        Err(Some(Error::NoAdminProposalPending))
    );
    assert_eq!(RoyaltySplitter::version(), 3);
}

#[test]
fn only_the_admin_pays_out() {
    let f = setup(1_000);
    f.register(vec![(f.stage.someone(), 10000)]);
    f.stage.env.set_auths(&[]);
    assert_eq!(f.try_distribute(DATASET, 1_000), Err(None));
    assert_eq!(f.held(), 1_000);
    assert_eq!(f.stage.contract.borrow().payout_count(), 0);
}

#[test]
fn a_frozen_splitter_pays_nothing_and_still_renews() {
    let f = setup(1_000);
    f.register(vec![(f.stage.someone(), 10000)]);
    f.distribute(DATASET, 500);
    f.stage.call(|c, ctx, fx| c.pause(ctx, fx));
    assert_eq!(
        f.stage.attempt(|c, ctx, fx| c.pause(ctx, fx)),
        Err(Some(Error::AlreadyPaused))
    );
    let frozen = Err(Some(Error::ContractPaused));
    assert_eq!(f.try_distribute(DATASET, 500), frozen);
    let config = f.config("other", vec![(f.stage.someone(), 10000)]);
    assert_eq!(f.stage.attempt(|c, _, fx| c.register_split(fx, config)), frozen);
    let oracle = f.stage.someone();
    assert_eq!(f.stage.attempt(|c, _, fx| c.set_oracle(fx, oracle)), frozen);
    f.stage.call(|c, _, fx| c.renew_split_ttl(fx, text(DATASET)));
    f.stage.call(|c, _, fx| c.renew_payout_ttl(fx, 1));
    assert_eq!(f.stage.read(|c| c.get_payout(1)).total_amount, 500);
    f.stage.call(|c, ctx, fx| c.unpause(ctx, fx));
    f.distribute(DATASET, 500);
    assert_eq!(f.held(), 0);
    assert_eq!(
        f.stage.attempt(|c, ctx, fx| c.unpause(ctx, fx)),
        Err(Some(Error::NotPaused))
    );
}

// Lifetimes.

fn setup_for_lifetimes() -> Fixture {
    let f = setup(100_000);
    let config = f.config("ds_ttl", vec![(f.stage.someone(), 6000), (f.stage.someone(), 4000)]);
    f.stage.call(|c, _, fx| c.register_split(fx, config));
    f
}

#[test]
fn test_register_split_extends_ttl_on_creation() {
    let f = setup_for_lifetimes();
    assert_eq!(f.stage.ttl_of(f.key("ds_ttl")), f.stage.full_window());
}

#[test]
fn test_distribute_extends_payout_receipt_ttl() {
    let f = setup_for_lifetimes();
    f.distribute("ds_ttl", 10_000);
    assert_eq!(f.stage.ttl_of(f.key("pay_1")), f.stage.full_window());
}

#[test]
fn test_renew_split_ttl_is_permissionless() {
    let f = setup_for_lifetimes();
    f.stage.advance(2_000_000);
    assert!(f.stage.ttl_of(f.key("ds_ttl")) < f.stage.full_window());

    f.stage.env.set_auths(&[]);
    f.stage.call(|c, _, fx| c.renew_split_ttl(fx, text("ds_ttl")));

    assert_eq!(f.stage.ttl_of(f.key("ds_ttl")), f.stage.full_window());
}

#[test]
#[should_panic(expected = "Error(Contract, #5)")]
fn test_renew_split_ttl_unknown_dataset_panics() {
    let f = setup_for_lifetimes();
    f.stage.call(|c, _, fx| c.renew_split_ttl(fx, text("ds_nope")));
}

#[test]
fn test_renew_payout_ttl_is_permissionless() {
    let f = setup_for_lifetimes();
    f.distribute("ds_ttl", 10_000);

    f.stage.advance(2_000_000);
    f.stage.env.set_auths(&[]);
    f.stage.call(|c, _, fx| c.renew_payout_ttl(fx, 1));

    assert_eq!(f.stage.ttl_of(f.key("pay_1")), f.stage.full_window());
    assert_eq!(f.stage.read(|c| c.get_payout(1)).total_amount, 10_000);
}

#[test]
#[should_panic(expected = "Error(Contract, #8)")]
fn test_renew_payout_ttl_unknown_record_panics() {
    let f = setup_for_lifetimes();
    f.stage.call(|c, _, fx| c.renew_payout_ttl(fx, 99));
}

#[test]
fn test_split_config_still_distributable_after_long_ledger_advance() {
    let f = setup_for_lifetimes();
    let window = f.stage.full_window();

    for _ in 0..9 {
        f.stage.advance(window - 1);
        f.stage.call(|c, _, fx| c.renew_split_ttl(fx, text("ds_ttl")));
    }

    // The shares are still the ones that were registered.
    let contract = f.stage.contract.borrow();
    let config = match contract.records.get(&text("ds_ttl")) {
        Some(Record::Split(config)) => config,
        _ => panic!("split config should have survived"),
    };
    assert_eq!(config.dataset_id, "ds_ttl");
    assert_eq!(config.contributors.len(), 2);
    assert_eq!(config.contributors[0].1, 6000);
    assert_eq!(config.contributors[1].1, 4000);
    assert_eq!(f.stage.ttl_of(f.key("ds_ttl")), f.stage.full_window());
}
