//! Quality, on a real ledger.
#![allow(deprecated)]

use data_market::quality_oracle::median::{has_median_of, median_of, sort};
use data_market::quality_oracle::{
    AttestationKey, CuratorState, CuratorStatus, DatasetQuality, Error, QualityOracle, QualityTier,
    MAX_SCORE,
};
use data_market::host::{
    Address, Context, Effect, Effects, Hash32, StorageKey, Value, PERSISTENT_TTL,
};
use soroban_sdk::testutils::{
    storage::Persistent as _, Address as _, ContractFunctionSet, EnvTestConfig, Ledger as _,
    MockAuth, MockAuthInvoke,
};
use soroban_sdk::token::Client as TokenClient;
use soroban_sdk::{
    Address as Account, BytesN, Env, IntoVal, InvokeError, String as Text, Symbol, Val, Vec as List,
};
use std::cell::RefCell;
use std::rc::Rc;

/// A ledger, and a contract on it in whose name effects are carried out.
struct Stage {
    env: Env,
    address: Account,
    job: Rc<RefCell<Vec<Effect>>>,
    contract: RefCell<QualityOracle>,
}

struct Actor {
    job: Rc<RefCell<Vec<Effect>>>,
}

impl ContractFunctionSet for Actor {
    fn call(&self, _name: &str, env: Env, _args: &[Val]) -> Option<Val> {
        for effect in self.job.borrow().iter() {
            carry_out(&env, effect);
        }
        Some(().into_val(&env))
    }
}

fn account(env: &Env, who: &Address) -> Account {
    Account::from_str(env, &who.strkey)
}

fn name_of(env: &Env, key: &StorageKey) -> Text {
    Text::from_str(env, &format!("{:?}", key))
}

fn value(env: &Env, item: &Value) -> Val {
    match item {
        Value::Text(x) => Text::from_str(env, x).into_val(env),
        Value::Account(x) => account(env, x).into_val(env),
        Value::Digest(x) => BytesN::from_array(env, &x.bytes).into_val(env),
        Value::U32(x) => x.into_val(env),
        Value::U64(x) => x.into_val(env),
        Value::I128(x) => x.into_val(env),
        Value::Flag(x) => x.into_val(env),
        Value::Variant(x) => (Symbol::new(env, x),).into_val(env),
    }
}

fn carry_out(env: &Env, effect: &Effect) {
    match effect {
        Effect::Authorize(who) => account(env, who).require_auth(),
        Effect::Transfer { token, from, to, amount } => {
            TokenClient::new(env, &account(env, token)).transfer(
                &account(env, from),
                &account(env, to),
                amount,
            );
        }
        Effect::Extend { key: StorageKey::Instance, threshold, extend_to } => {
            env.storage().instance().extend_ttl(*threshold, *extend_to);
        }
        Effect::Extend { key, threshold, extend_to } => {
            let entries = env.storage().persistent();
            let name = name_of(env, key);
            if !entries.has(&name) {
                entries.set(&name, &true);
            }
            entries.extend_ttl(&name, *threshold, *extend_to);
        }
        Effect::Publish { group, name, data } => {
            let topics = (Symbol::new(env, group), Symbol::new(env, name));
            if data.len() == 1 {
                env.events().publish(topics, value(env, &data[0]));
            } else {
                let mut items: List<Val> = List::new(env);
                for item in data {
                    items.push_back(value(env, item));
                }
                env.events().publish(topics, items);
            }
        }
        Effect::Upgrade(hash) => {
            let hash = BytesN::from_array(env, &hash.bytes);
            env.deployer().update_current_contract_wasm(hash);
        }
    }
}

impl Stage {
    fn new() -> Stage {
        let env = Env::new_with_config(EnvTestConfig { capture_snapshot_at_drop: false });
        env.mock_all_auths();
        Stage::on(&env)
    }

    fn on(env: &Env) -> Stage {
        let job = Rc::new(RefCell::new(Vec::new()));
        let address = env.register_contract(None, Actor { job: job.clone() });
        let contract = RefCell::new(QualityOracle::new());
        Stage { env: env.clone(), address, job, contract }
    }

    fn someone(&self) -> Address {
        address_of(&Account::generate(&self.env))
    }

    fn context(&self) -> Context {
        Context {
            sequence: self.env.ledger().sequence(),
            timestamp: self.env.ledger().timestamp(),
            contract: address_of(&self.address),
        }
    }

    /// Makes a call. `Err(None)` where the host refused what the call asked.
    fn attempt<T>(
        &self,
        call: impl FnOnce(&mut QualityOracle, &Context, &mut Effects) -> Result<T, Error>,
    ) -> Result<T, Option<Error>> {
        let mut next = self.contract.borrow().clone();
        let mut fx = Effects::new();
        let answer = call(&mut next, &self.context(), &mut fx);
        *self.job.borrow_mut() = fx.list;
        let run = Symbol::new(&self.env, "run");
        let done = self.env.try_invoke_contract::<(), InvokeError>(
            &self.address,
            &run,
            List::new(&self.env),
        );
        if done.is_err() {
            return Err(None);
        }
        match answer {
            Ok(value) => {
                *self.contract.borrow_mut() = next;
                Ok(value)
            }
            Err(e) => Err(Some(e)),
        }
    }

    /// Makes a call that has to go through.
    fn call<T>(
        &self,
        call: impl FnOnce(&mut QualityOracle, &Context, &mut Effects) -> Result<T, Error>,
    ) -> T {
        match self.attempt(call) {
            Ok(value) => value,
            Err(Some(e)) => panic!("{}: Error(Contract, #{})", e.message(), e.code()),
            Err(None) => panic!("the host refused the call"),
        }
    }

    /// Reads what has to be there.
    fn read<T>(&self, read: impl FnOnce(&QualityOracle) -> Result<T, Error>) -> T {
        match read(&self.contract.borrow()) {
            Ok(value) => value,
            Err(e) => panic!("{}: Error(Contract, #{})", e.message(), e.code()),
        }
    }

    fn advance(&self, ledgers: u32) {
        self.env.ledger().with_mut(|l| l.sequence_number += ledgers);
    }

    fn ttl_of(&self, key: StorageKey) -> u32 {
        let name = name_of(&self.env, &key);
        self.env.as_contract(&self.address, || {
            self.env.storage().persistent().get_ttl(&name)
        })
    }

    /// The host caps every entry, so a full window is the smaller of the two.
    fn full_window(&self) -> u32 {
        PERSISTENT_TTL.min(self.env.ledger().get().max_entry_ttl - 1)
    }
}

fn address_of(account: &Account) -> Address {
    let text = account.to_string();
    let mut bytes = vec![0u8; text.len() as usize];
    text.copy_into_slice(&mut bytes);
    Address { strkey: String::from_utf8(bytes).unwrap() }
}

fn text(s: &str) -> String {
    String::from(s)
}

fn rubric(byte: u8) -> Hash32 {
    Hash32 { bytes: [byte; 32] }
}

fn started() -> Stage {
    let stage = Stage::new();
    let admin = stage.someone();
    stage.call(|c, _, fx| c.initialize(fx, admin));
    stage
}

fn curator(stage: &Stage) -> Address {
    let who = stage.someone();
    stage.call(|c, _, fx| c.register_curator(fx, who.clone()));
    who
}

fn attest(stage: &Stage, who: &Address, dataset: &str, score: u32, rubric: Hash32) {
    stage.call(|c, ctx, fx| {
        c.attest_quality(ctx, fx, who.clone(), text(dataset), score, rubric)
    });
}

fn slash(stage: &Stage, who: &Address, dataset: &str) {
    stage.call(|c, _, fx| c.slash_curator(fx, who.clone(), text(dataset)));
}

fn state_of(stage: &Stage, who: &Address) -> CuratorState {
    stage.read(|c| c.get_curator(who))
}

fn quality_of(stage: &Stage, dataset: &str) -> DatasetQuality {
    stage.read(|c| c.get_quality(&text(dataset)))
}

#[test]
fn test_register_and_attest_happy_path() {
    let stage = started();
    let who = curator(&stage);
    attest(&stage, &who, "ds_1", 75, rubric(1));

    let quality = quality_of(&stage, "ds_1");
    assert_eq!(quality.average_score, 75);
    assert_eq!(quality.attestation_count, 1);
    assert_eq!(quality.tier, QualityTier::Gold);
}

/// A small generator that gives the same numbers on every run.
struct Xorshift32(u32);

impl Xorshift32 {
    fn next(&mut self) -> u32 {
        let mut x = self.0;
        x ^= x << 13;
        x ^= x >> 17;
        x ^= x << 5;
        self.0 = x;
        x
    }

    fn below(&mut self, bound: u32) -> u32 {
        self.next() % bound
    }
}

fn expected_tier(score: u32) -> QualityTier {
    match score {
        0 => QualityTier::Unrated,
        1..=39 => QualityTier::Bronze,
        40..=69 => QualityTier::Silver,
        70..=84 => QualityTier::Gold,
        _ => QualityTier::Platinum,
    }
}

fn expected_royalty_bps(tier: &QualityTier) -> u32 {
    match tier {
        QualityTier::Platinum => 15000,
        QualityTier::Gold => 12500,
        QualityTier::Silver => 10000,
        QualityTier::Bronze => 7500,
        QualityTier::Unrated => 10000,
    }
}

#[test]
fn test_fuzz_score_aggregation_invariants_hold_across_random_sequence() {
    let stage = started();
    stage.env.cost_estimate().budget().reset_unlimited();
    let mut rng = Xorshift32(0x1234_5678);

    // The average of the stored average, which is rounded down, and the score.
    let mut shadow_avg: u64 = 0;
    let mut shadow_count: u64 = 0;

    for i in 0..200u32 {
        let score = rng.below(MAX_SCORE + 1); // 0..=100 inclusive
        let who = curator(&stage);

        let mut bytes = [0u8; 32];
        bytes[0] = (i % 256) as u8;
        attest(&stage, &who, "ds_fuzz", score, Hash32 { bytes });

        let new_total = shadow_avg * shadow_count + score as u64;
        shadow_count += 1;
        shadow_avg = new_total / shadow_count;

        let quality = quality_of(&stage, "ds_fuzz");
        assert!(quality.average_score <= MAX_SCORE, "iteration {i}");
        assert_eq!(quality.average_score as u64, shadow_avg, "iteration {i}");
        assert_eq!(quality.attestation_count, shadow_count as u32, "iteration {i}");

        let tier = expected_tier(quality.average_score);
        assert_eq!(quality.tier, tier, "iteration {i}");

        let bps = stage.contract.borrow().royalty_multiplier_bps(&text("ds_fuzz"));
        assert_eq!(bps, expected_royalty_bps(&tier), "iteration {i}");
        assert!(
            bps == 7500 || bps == 10000 || bps == 12500 || bps == 15000,
            "iteration {i}"
        );
    }
}

#[test]
#[should_panic(expected = "score must be 0-100")]
fn test_attest_quality_rejects_out_of_range_score() {
    let stage = started();
    let who = curator(&stage);
    attest(&stage, &who, "ds_bad", 101, rubric(2));
}

#[test]
#[should_panic(expected = "curator not registered")]
fn test_attest_quality_rejects_unregistered_curator() {
    let stage = started();
    let who = stage.someone();
    attest(&stage, &who, "ds_unreg", 50, rubric(3));
}

/// Three curators around fifty, and one at ninety-five: the median is fifty
/// two, the deviation well over thirty.
fn outlier_on(stage: &Stage, outlier: &Address, dataset: &str, byte: u8) {
    for score in [45u32, 50, 55] {
        let honest = curator(stage);
        attest(stage, &honest, dataset, score, rubric(byte));
    }
    attest(stage, outlier, dataset, 95, rubric(byte));
}

#[test]
fn test_slash_curator_reduces_stake_and_warns_on_first_offense() {
    let stage = started();
    let outlier = curator(&stage);
    outlier_on(&stage, &outlier, "ds_slash", 7);

    let stake_before = state_of(&stage, &outlier).stake;
    slash(&stage, &outlier, "ds_slash");
    let state_after = state_of(&stage, &outlier);

    assert_eq!(state_after.stake, stake_before - stake_before * 20 / 100);
    assert_eq!(state_after.status, CuratorStatus::SlashWarning);
    assert_eq!(stage.contract.borrow().treasury_balance(), stake_before * 20 / 100);
}

#[test]
fn test_slash_curator_bans_on_second_offense_and_blocks_attestation() {
    let stage = started();
    let outlier = curator(&stage);
    outlier_on(&stage, &outlier, "ds_slash", 7);

    slash(&stage, &outlier, "ds_slash");
    assert_eq!(state_of(&stage, &outlier).status, CuratorStatus::SlashWarning);

    // A second dataset where the same curator is again an outlier.
    outlier_on(&stage, &outlier, "ds_slash_2", 8);
    slash(&stage, &outlier, "ds_slash_2");
    assert_eq!(state_of(&stage, &outlier).status, CuratorStatus::Banned);

    let result = stage.attempt(|c, ctx, fx| {
        c.attest_quality(ctx, fx, outlier.clone(), text("ds_after_ban"), 50, rubric(8))
    });
    assert!(result.is_err());
    assert_eq!(result, Err(Some(Error::CuratorIsBanned)));

    // Four fifths of four fifths are left, and the rest is in the treasury.
    assert_eq!(state_of(&stage, &outlier).stake, 64_000_000);
    assert_eq!(stage.contract.borrow().treasury_balance(), 36_000_000);
    let again = stage.attempt(|c, _, fx| {
        c.slash_curator(fx, outlier.clone(), text("ds_slash"))
    });
    assert_eq!(again, Err(Some(Error::CuratorAlreadyBanned)));
}

#[test]
#[should_panic(expected = "attestation within consensus tolerance, cannot slash")]
fn test_slash_curator_rejects_scores_within_tolerance() {
    let stage = started();
    let curator_a = curator(&stage);
    attest(&stage, &curator_a, "ds_close", 50, rubric(9));
    let curator_b = curator(&stage);
    attest(&stage, &curator_b, "ds_close", 60, rubric(9));

    slash(&stage, &curator_a, "ds_close");
}

#[test]
#[should_panic]
fn test_slash_curator_rejects_non_admin_caller() {
    let stage = started();
    let outlier = curator(&stage);
    outlier_on(&stage, &outlier, "ds_slash", 7);

    // Only somebody else's authorization is given.
    let non_admin = Account::generate(&stage.env);
    stage.env.mock_auths(&[MockAuth {
        address: &non_admin,
        invoke: &MockAuthInvoke {
            contract: &stage.address,
            fn_name: "run",
            args: List::new(&stage.env),
            sub_invokes: &[],
        },
    }]);

    slash(&stage, &outlier, "ds_slash");
}

#[test]
fn a_curator_registers_once_with_the_full_stake() {
    let stage = started();
    let who = curator(&stage);
    let state = CuratorState { stake: 100_000_000, status: CuratorStatus::Active };
    assert_eq!(state_of(&stage, &who), state);
    assert_eq!(stage.contract.borrow().curator_count, 1);
    assert_eq!(
        stage.attempt(|c, _, fx| c.register_curator(fx, who)),
        Err(Some(Error::CuratorAlreadyRegistered))
    );
    assert_eq!(stage.contract.borrow().curator_count, 1);
}

#[test]
fn a_deviation_of_exactly_thirty_is_tolerated() {
    let stage = started();
    let low = curator(&stage);
    let mid = curator(&stage);
    let high = curator(&stage);
    attest(&stage, &low, "ds", 19, rubric(1));
    attest(&stage, &mid, "ds", 50, rubric(1));
    attest(&stage, &high, "ds", 80, rubric(1));
    // The median is fifty: eighty is thirty off, nineteen thirty-one.
    assert_eq!(
        stage.attempt(|c, _, fx| c.slash_curator(fx, high.clone(), text("ds"))),
        Err(Some(Error::WithinTolerance))
    );
    slash(&stage, &low, "ds");
    assert_eq!(state_of(&stage, &low).status, CuratorStatus::SlashWarning);
}

#[test]
fn the_latest_score_counts_once_for_the_median() {
    let stage = started();
    let one = curator(&stage);
    let two = curator(&stage);
    attest(&stage, &one, "ds", 0, rubric(1));
    attest(&stage, &one, "ds", 90, rubric(2));
    attest(&stage, &two, "ds", 90, rubric(1));
    let contract = stage.contract.borrow();
    let listed = contract.attesters.get(&text("ds")).unwrap();
    assert_eq!(listed.list, vec![one.clone(), two.clone()]);
    // Both scores count in the average: (0 + 90) / 2, then (45 * 2 + 90) / 3.
    let quality = contract.get_quality(&text("ds")).unwrap();
    assert_eq!(quality.average_score, 60);
    assert_eq!(quality.attestation_count, 3);
}

#[test]
fn the_average_stays_between_the_least_score_and_the_mean() {
    let stage = started();
    let who = curator(&stage);
    let scores = [10u32, 11, 100, 99, 3, 57, 57];
    for (n, score) in scores.iter().enumerate() {
        attest(&stage, &who, "ds", *score, rubric(1));
        let given = &scores[..=n];
        let average = quality_of(&stage, "ds").average_score;
        assert!(*given.iter().min().unwrap() <= average);
        assert!(average <= given.iter().sum::<u32>() / given.len() as u32);
    }
    // Rounded down at every score: 10, 10, 40, 54, 43, 45, 46; the mean is 48.
    assert_eq!(quality_of(&stage, "ds").average_score, 46);
}

#[test]
fn stakes_are_conserved_when_the_count_starts_over() {
    let stage = Stage::new();
    let early = curator(&stage);
    let admin = stage.someone();
    stage.call(|c, _, fx| c.initialize(fx, admin));
    assert_eq!(stage.contract.borrow().curator_count, 0);
    outlier_on(&stage, &early, "ds", 1);
    slash(&stage, &early, "ds");
    assert_eq!(stage.contract.borrow().curator_count, 3);
    assert_eq!(state_of(&stage, &early).stake, 80_000_000);
    assert_eq!(stage.contract.borrow().treasury_balance(), 20_000_000);
}

#[test]
fn slashing_needs_a_curator_and_a_score() {
    let stage = started();
    let who = curator(&stage);
    let stranger = stage.someone();
    assert_eq!(
        stage.attempt(|c, _, fx| c.slash_curator(fx, stranger, text("ds"))),
        Err(Some(Error::CuratorNotRegistered))
    );
    assert_eq!(
        stage.attempt(|c, _, fx| c.slash_curator(fx, who.clone(), text("ds"))),
        Err(Some(Error::NoAttestationOfCurator))
    );
    attest(&stage, &who, "ds", 5, rubric(1));
    // Alone, the curator is the consensus.
    assert_eq!(
        stage.attempt(|c, _, fx| c.slash_curator(fx, who.clone(), text("ds"))),
        Err(Some(Error::WithinTolerance))
    );
}

#[test]
fn a_lapsed_list_or_score_is_reported() {
    let stage = started();
    let one = curator(&stage);
    let two = curator(&stage);
    attest(&stage, &one, "ds", 0, rubric(1));
    attest(&stage, &two, "ds", 90, rubric(1));
    let full = stage.contract.borrow().clone();

    let key = AttestationKey { dataset_id: text("ds"), curator: two.clone() };
    stage.contract.borrow_mut().attestations.remove(&key);
    assert_eq!(
        stage.attempt(|c, _, fx| c.slash_curator(fx, one.clone(), text("ds"))),
        Err(Some(Error::MissingAttestation))
    );

    *stage.contract.borrow_mut() = full;
    stage.contract.borrow_mut().attesters.remove(&text("ds"));
    assert_eq!(
        stage.attempt(|c, _, fx| c.slash_curator(fx, one.clone(), text("ds"))),
        Err(Some(Error::NoAttestationsForDataset))
    );
}

#[test]
fn medians_of_odd_and_even_numbers_of_scores() {
    assert_eq!(median_of(&vec![7]), 7);
    assert_eq!(median_of(&vec![9, 1]), 5);
    assert_eq!(median_of(&vec![2, 1]), 1);
    assert_eq!(median_of(&vec![50, 95, 45, 55]), 52);
    assert_eq!(median_of(&vec![100, 0, 3, 3, 90]), 3);
    assert_eq!(sort(&vec![3, 1, 2, 3, 0]), vec![0, 1, 2, 3, 3]);
}

#[test]
fn a_slash_that_does_not_fit_is_known_before() {
    let me = |s: &str| Address { strkey: text(s) };
    let ctx = Context { sequence: 3, timestamp: 30, contract: me("contract") };
    let mut oracle = QualityOracle::new();
    let mut fx = Effects::new();
    oracle.initialize(&mut fx, me("admin")).unwrap();
    for (who, score) in [("a", 10), ("b", 60), ("c", 70)] {
        oracle.register_curator(&mut fx, me(who)).unwrap();
        oracle.attest_quality(&ctx, &mut fx, me(who), text("ds"), score, rubric(1)).unwrap();
    }
    assert!(oracle.can_compute_slash(&me("a"), &text("ds")));
    assert!(oracle.can_compute_slash(&me("nobody"), &text("ds")));
    oracle.treasury = i128::MAX;
    assert!(!oracle.can_compute_slash(&me("a"), &text("ds")));
    // Within tolerance nothing is credited.
    assert!(oracle.can_compute_slash(&me("b"), &text("ds")));
    assert!(has_median_of(&vec![1, u32::MAX - 1]));
    assert!(!has_median_of(&vec![2, u32::MAX - 1]));
    assert!(!has_median_of(&vec![]));
}

#[test]
fn tiers_change_at_their_bounds() {
    for score in 0..=100 {
        assert_eq!(QualityOracle::compute_tier(score), expected_tier(score));
    }
    assert_eq!(QualityOracle::compute_tier(39), QualityTier::Bronze);
    assert_eq!(QualityOracle::compute_tier(40), QualityTier::Silver);
    assert_eq!(QualityOracle::compute_tier(84), QualityTier::Gold);
    assert_eq!(QualityOracle::compute_tier(85), QualityTier::Platinum);
}

#[test]
fn a_dataset_without_scores_has_no_quality_and_multiplies_by_one() {
    let stage = started();
    assert_eq!(stage.contract.borrow().get_quality(&text("ds")), Err(Error::NoQualityData));
    assert_eq!(stage.contract.borrow().royalty_multiplier_bps(&text("ds")), 10000);
    assert_eq!(
        stage.attempt(|c, _, fx| c.renew_quality_ttl(fx, text("ds"))),
        Err(Some(Error::NoQualityData))
    );
}

#[test]
fn attesting_keeps_every_record_and_anyone_may_renew() {
    let stage = started();
    let who = curator(&stage);
    assert_eq!(stage.ttl_of(StorageKey::Curator(who.clone())), stage.full_window());
    attest(&stage, &who, "ds", 50, rubric(1));
    let keys = || {
        [
            StorageKey::Attestation(text("ds"), who.clone()),
            StorageKey::Attesters(text("ds")),
            StorageKey::Quality(text("ds")),
        ]
    };
    for key in keys() {
        assert_eq!(stage.ttl_of(key), stage.full_window());
    }
    stage.advance(500_000);
    stage.env.set_auths(&[]);
    stage.call(|c, _, fx| c.renew_quality_ttl(fx, text("ds")));
    assert_eq!(stage.ttl_of(StorageKey::Quality(text("ds"))), stage.full_window());
    assert!(stage.ttl_of(StorageKey::Attesters(text("ds"))) < stage.full_window());
}

#[test]
fn a_frozen_oracle_takes_no_curators_scores_or_slashes() {
    let stage = started();
    let who = curator(&stage);
    attest(&stage, &who, "ds", 50, rubric(1));
    stage.call(|c, ctx, fx| c.pause(ctx, fx));
    let frozen = Err(Some(Error::ContractPaused));
    let other = stage.someone();
    assert_eq!(stage.attempt(|c, _, fx| c.register_curator(fx, other)), frozen);
    assert_eq!(
        stage.attempt(|c, ctx, fx| {
            c.attest_quality(ctx, fx, who.clone(), text("ds"), 60, rubric(1))
        }),
        frozen
    );
    assert_eq!(stage.attempt(|c, _, fx| c.slash_curator(fx, who.clone(), text("ds"))), frozen);
    assert_eq!(
        stage.attempt(|c, ctx, fx| c.pause(ctx, fx)),
        Err(Some(Error::AlreadyPaused))
    );
    assert_eq!(quality_of(&stage, "ds").average_score, 50);
    stage.call(|c, _, fx| c.renew_quality_ttl(fx, text("ds")));
    stage.call(|c, ctx, fx| c.unpause(ctx, fx));
    assert_eq!(
        stage.attempt(|c, ctx, fx| c.unpause(ctx, fx)),
        Err(Some(Error::NotPaused))
    );
    attest(&stage, &who, "ds", 60, rubric(1));
    assert_eq!(quality_of(&stage, "ds").average_score, 55);
    assert_eq!(QualityOracle::version(), 3);
}

#[test]
fn nothing_of_the_admin_goes_before_the_oracle_is_initialized() {
    let stage = Stage::new();
    let who = stage.someone();
    let missing = Err(Some(Error::NotInitialized));
    assert_eq!(
        stage.attempt(|c, _, fx| c.slash_curator(fx, who.clone(), text("ds"))),
        missing
    );
    assert_eq!(stage.attempt(|c, ctx, fx| c.pause(ctx, fx)), missing);
    assert_eq!(stage.attempt(|c, _, fx| c.propose_admin(fx, who.clone())), missing);
    stage.call(|c, _, fx| c.initialize(fx, who.clone()));
    assert_eq!(
        stage.attempt(|c, _, fx| c.initialize(fx, who.clone())),
        Err(Some(Error::AlreadyInitialized))
    );
    assert_eq!(
        stage.attempt(|c, _, fx| c.accept_admin(fx)),
        Err(Some(Error::NoAdminProposalPending))
    );
}

#[test]
fn a_slash_asks_for_the_admin_a_lifetime_and_an_event() {
    let mut oracle = QualityOracle::new();
    let me = |s: &str| Address { strkey: text(s) };
    let ctx = Context { sequence: 3, timestamp: 30, contract: me("contract") };
    let mut fx = Effects::new();
    oracle.initialize(&mut fx, me("admin")).unwrap();
    for (who, score) in [("a", 10), ("b", 60), ("c", 70)] {
        oracle.register_curator(&mut fx, me(who)).unwrap();
        oracle.attest_quality(&ctx, &mut fx, me(who), text("ds"), score, rubric(1)).unwrap();
    }
    let mut fx = Effects::new();
    oracle.slash_curator(&mut fx, me("a"), text("ds")).unwrap();
    assert_eq!(
        fx.list,
        vec![
            Effect::Authorize(me("admin")),
            Effect::Extend {
                key: StorageKey::Curator(me("a")),
                threshold: PERSISTENT_TTL,
                extend_to: PERSISTENT_TTL,
            },
            Effect::Publish {
                group: "oracle",
                name: "slashed",
                data: vec![
                    Value::Account(me("a")),
                    Value::Text(text("ds")),
                    Value::I128(20_000_000),
                    Value::Variant("SlashWarning"),
                ],
            },
        ]
    );
}
