//! Licenses, on a real ledger.
#![allow(deprecated)]

use data_market::license_router::{Error, License, LicenseRouter, LicenseState, LicenseType};
use data_market::quality_oracle::QualityOracle;
use data_market::host::{
    Address, Context, Effect, Effects, Hash32, StorageKey, Value, PERSISTENT_TTL,
};
use soroban_sdk::testutils::{
    storage::Persistent as _, Address as _, ContractFunctionSet, EnvTestConfig, Events as _,
    Ledger as _,
};
use soroban_sdk::token::Client as TokenClient;
use soroban_sdk::{
    Address as Account, BytesN, Env, IntoVal, InvokeError, String as Text, Symbol, Val, Vec as List,
};
use std::cell::RefCell;
use std::rc::Rc;

/// A ledger, and a contract on it in whose name effects are carried out.
struct Stage {
    env: Env,
    address: Account,
    job: Rc<RefCell<Vec<Effect>>>,
    contract: RefCell<LicenseRouter>,
}

struct Actor {
    job: Rc<RefCell<Vec<Effect>>>,
}

impl ContractFunctionSet for Actor {
    fn call(&self, _name: &str, env: Env, _args: &[Val]) -> Option<Val> {
        for effect in self.job.borrow().iter() {
            carry_out(&env, effect);
        }
        Some(().into_val(&env))
    }
}

fn account(env: &Env, who: &Address) -> Account {
    Account::from_str(env, &who.strkey)
}

fn name_of(env: &Env, key: &StorageKey) -> Text {
    Text::from_str(env, &format!("{:?}", key))
}

fn value(env: &Env, item: &Value) -> Val {
    match item {
        Value::Text(x) => Text::from_str(env, x).into_val(env),
        Value::Account(x) => account(env, x).into_val(env),
        Value::Digest(x) => BytesN::from_array(env, &x.bytes).into_val(env),
        Value::U32(x) => x.into_val(env),
        Value::U64(x) => x.into_val(env),
        Value::I128(x) => x.into_val(env),
        Value::Flag(x) => x.into_val(env),
        Value::Variant(x) => (Symbol::new(env, x),).into_val(env),
    }
}

fn carry_out(env: &Env, effect: &Effect) {
    match effect {
        Effect::Authorize(who) => account(env, who).require_auth(),
        Effect::Transfer { token, from, to, amount } => {
            TokenClient::new(env, &account(env, token)).transfer(
                &account(env, from),
                &account(env, to),
                amount,
            );
        }
        Effect::Extend { key: StorageKey::Instance, threshold, extend_to } => {
            env.storage().instance().extend_ttl(*threshold, *extend_to);
        }
        Effect::Extend { key, threshold, extend_to } => {
            let entries = env.storage().persistent();
            let name = name_of(env, key);
            if !entries.has(&name) {
                entries.set(&name, &true);
            }
            entries.extend_ttl(&name, *threshold, *extend_to);
        }
        Effect::Publish { group, name, data } => {
            let topics = (Symbol::new(env, group), Symbol::new(env, name));
            if data.len() == 1 {
                env.events().publish(topics, value(env, &data[0]));
            } else {
                let mut items: List<Val> = List::new(env);
                for item in data {
                    items.push_back(value(env, item));
                }
                env.events().publish(topics, items);
            }
        }
        Effect::Upgrade(hash) => {
            let hash = BytesN::from_array(env, &hash.bytes);
            env.deployer().update_current_contract_wasm(hash);
        }
    }
}

impl Stage {
    fn new() -> Stage {
        let env = Env::new_with_config(EnvTestConfig { capture_snapshot_at_drop: false });
        env.mock_all_auths();
        Stage::on(&env)
    }

    fn on(env: &Env) -> Stage {
        let job = Rc::new(RefCell::new(Vec::new()));
        let address = env.register_contract(None, Actor { job: job.clone() });
        let contract = RefCell::new(LicenseRouter::new());
        Stage { env: env.clone(), address, job, contract }
    }

    fn someone(&self) -> Address {
        address_of(&Account::generate(&self.env))
    }

    fn context(&self) -> Context {
        Context {
            sequence: self.env.ledger().sequence(),
            timestamp: self.env.ledger().timestamp(),
            contract: address_of(&self.address),
        }
    }

    /// Makes a call. `Err(None)` where the host refused what the call asked.
    fn attempt<T>(
        &self,
        call: impl FnOnce(&mut LicenseRouter, &Context, &mut Effects) -> Result<T, Error>,
    ) -> Result<T, Option<Error>> {
        let mut next = self.contract.borrow().clone();
        let mut fx = Effects::new();
        let answer = call(&mut next, &self.context(), &mut fx);
        *self.job.borrow_mut() = fx.list;
        let run = Symbol::new(&self.env, "run");
        let done = self.env.try_invoke_contract::<(), InvokeError>(
            &self.address,
            &run,
            List::new(&self.env),
        );
        if done.is_err() {
            return Err(None);
        }
        match answer {
            Ok(value) => {
                *self.contract.borrow_mut() = next;
                Ok(value)
            }
            Err(e) => Err(Some(e)),
        }
    }

    /// Makes a call that has to go through.
    fn call<T>(
        &self,
        call: impl FnOnce(&mut LicenseRouter, &Context, &mut Effects) -> Result<T, Error>,
    ) -> T {
        match self.attempt(call) {
            Ok(value) => value,
            Err(Some(e)) => panic!("{}: Error(Contract, #{})", e.message(), e.code()),
            Err(None) => panic!("the host refused the call"),
        }
    }

    /// Reads what has to be there.
    fn read<T>(&self, read: impl FnOnce(&LicenseRouter) -> Result<T, Error>) -> T {
        match read(&self.contract.borrow()) {
            Ok(value) => value,
            Err(e) => panic!("{}: Error(Contract, #{})", e.message(), e.code()),
        }
    }

    fn advance(&self, ledgers: u32) {
        self.env.ledger().with_mut(|l| l.sequence_number += ledgers);
    }

    fn at_ledger(&self, sequence: u32) {
        self.env.ledger().with_mut(|l| l.sequence_number = sequence);
    }

    fn ttl_of(&self, key: StorageKey) -> u32 {
        let name = name_of(&self.env, &key);
        self.env.as_contract(&self.address, || {
            self.env.storage().persistent().get_ttl(&name)
        })
    }

    /// The host caps every entry, so a full window is the smaller of the two.
    fn full_window(&self) -> u32 {
        PERSISTENT_TTL.min(self.env.ledger().get().max_entry_ttl - 1)
    }
}

fn address_of(account: &Account) -> Address {
    let text = account.to_string();
    let mut bytes = vec![0u8; text.len() as usize];
    text.copy_into_slice(&mut bytes);
    Address { strkey: String::from_utf8(bytes).unwrap() }
}

fn text(s: &str) -> String {
    String::from(s)
}

/// A router, and an oracle that it may ask.
struct Fixture {
    stage: Stage,
    oracle: RefCell<QualityOracle>,
}

fn plain() -> Fixture {
    let stage = Stage::new();
    let admin = stage.someone();
    let registry = stage.someone();
    stage.call(|c, _, fx| c.initialize(fx, admin, registry));
    Fixture { stage, oracle: RefCell::new(QualityOracle::new()) }
}

fn with_oracle() -> Fixture {
    let f = plain();
    let oracle_contract = f.stage.someone();
    f.stage.call(|c, _, fx| c.set_oracle(fx, oracle_contract));
    let admin = f.stage.someone();
    f.oracle.borrow_mut().initialize(&mut Effects::new(), admin).unwrap();
    f
}

impl Fixture {
    fn attest(&self, dataset_id: &str, score: u32) {
        let mut oracle = self.oracle.borrow_mut();
        let mut fx = Effects::new();
        let curator = self.stage.someone();
        oracle.register_curator(&mut fx, curator.clone()).unwrap();
        let rubric = Hash32 { bytes: [7u8; 32] };
        let ctx = self.stage.context();
        oracle.attest_quality(&ctx, &mut fx, curator, text(dataset_id), score, rubric).unwrap();
    }

    fn try_issue(
        &self,
        dataset_id: &str,
        license_type: LicenseType,
        duration: u32,
        fee: i128,
    ) -> Result<String, Option<Error>> {
        let licensee = self.stage.someone();
        let reply = match self.stage.contract.borrow().oracle_to_ask() {
            Some(_) => Some(self.oracle.borrow().royalty_multiplier_bps(&text(dataset_id))),
            None => None,
        };
        self.stage.attempt(|c, ctx, fx| {
            c.issue_license(
                ctx,
                fx,
                licensee,
                text(dataset_id),
                license_type,
                text("GLOBAL"),
                duration,
                fee,
                reply,
            )
        })
    }

    fn issue(&self, dataset_id: &str, kind: LicenseType, duration: u32, fee: i128) -> String {
        match self.try_issue(dataset_id, kind, duration, fee) {
            Ok(id) => id,
            Err(Some(e)) => panic!("{}: Error(Contract, #{})", e.message(), e.code()),
            Err(None) => panic!("the host refused the call"),
        }
    }

    fn issue_at(&self, kind: LicenseType, fee: i128) -> String {
        self.issue("ds_fee", kind, 1000, fee)
    }

    fn license(&self, id: &String) -> License {
        self.stage.read(|c| c.get_license(id))
    }

    fn is_valid(&self, id: &String) -> bool {
        self.stage.contract.borrow().is_license_valid(&self.stage.context(), id)
    }

    fn revoke(&self, id: &String) {
        self.stage.call(|c, _, fx| c.revoke_license(fx, id.clone()));
    }

    fn renew(&self, id: &String) {
        self.stage.call(|c, _, fx| c.renew_license_ttl(fx, id.clone()));
    }

    fn ttl(&self, id: &String) -> u32 {
        self.stage.ttl_of(StorageKey::License(id.clone()))
    }
}

// Royalties.

#[test]
fn test_platinum_dataset_gets_fifty_percent_royalty_premium() {
    let f = with_oracle();
    f.attest("ds_platinum", 95); // Platinum: 85-100

    let id = f.issue("ds_platinum", LicenseType::Commercial, 1000, 100_000_000);

    let license = f.license(&id);
    assert_eq!(license.fee_paid_stroops, 100_000_000);
    assert_eq!(license.effective_royalty_stroops, 150_000_000); // 1.5x
}

#[test]
fn test_unrated_dataset_gets_standard_royalties() {
    let f = with_oracle();
    let id = f.issue("ds_unrated", LicenseType::Commercial, 1000, 100_000_000);
    let license = f.license(&id);
    assert_eq!(license.effective_royalty_stroops, license.fee_paid_stroops); // 1x
}

#[test]
fn test_no_oracle_configured_defaults_to_standard_royalties() {
    let f = plain();
    let id = f.issue("ds_x", LicenseType::Commercial, 1000, 100_000_000);
    let license = f.license(&id);
    assert_eq!(license.effective_royalty_stroops, license.fee_paid_stroops);
}

#[test]
fn every_tier_has_its_royalties() {
    let f = with_oracle();
    for (score, royalty) in [(10, 75), (50, 100), (70, 125), (85, 150)] {
        let dataset = format!("ds_{}", score);
        f.attest(&dataset, score);
        let id = f.issue(&dataset, LicenseType::Commercial, 1000, 100_000_000);
        assert_eq!(f.license(&id).effective_royalty_stroops, royalty * 1_000_000);
    }
    // Rounded down.
    let id = f.issue("ds_10", LicenseType::Research, 1000, 3);
    assert_eq!(f.license(&id).effective_royalty_stroops, 2);
}

#[test]
fn a_failed_question_to_the_oracle_does_not_block_licensing() {
    let f = with_oracle();
    let licensee = f.stage.someone();
    let id = f.stage.call(|c, ctx, fx| {
        c.issue_license(
            ctx,
            fx,
            licensee,
            text("ds_x"),
            LicenseType::Research,
            text("NG"),
            1,
            7,
            None,
        )
    });
    assert_eq!(f.license(&id).effective_royalty_stroops, 7);
    assert_eq!(f.license(&id).region_code, "NG");
}

#[test]
fn test_issue_research_license_free() {
    let f = plain();
    let id = f.issue("ds_x", LicenseType::Research, 1000, 0);
    let license = f.license(&id);
    assert_eq!(license.fee_paid_stroops, 0);
    assert_eq!(license.license_type, LicenseType::Research);
}

#[test]
#[should_panic(expected = "Error(Contract, #4)")]
fn test_issue_commercial_license_insufficient_fee() {
    let f = plain();
    f.issue("ds_x", LicenseType::Commercial, 1000, 99_999_999);
}

#[test]
fn test_license_expiry() {
    let f = plain();
    f.stage.at_ledger(100);
    let id = f.issue("ds_x", LicenseType::Commercial, 1000, 100_000_000);
    assert!(f.is_valid(&id));
    f.stage.at_ledger(1101);
    assert!(!f.is_valid(&id));
}

#[test]
fn test_revoke_license() {
    let f = plain();
    let id = f.issue("ds_x", LicenseType::Commercial, 1000, 100_000_000);
    assert!(f.is_valid(&id));

    f.revoke(&id);

    assert!(!f.is_valid(&id));
    assert_eq!(f.license(&id).state, LicenseState::Revoked);
}

// Upgrades.

/// The smallest module that a ledger takes: it names the interface it was
/// built for and holds nothing else.
fn smallest_wasm(env: &Env) -> Vec<u8> {
    let name = "contractenvmetav0";
    let mut wasm = vec![0x00, 0x61, 0x73, 0x6d, 0x01, 0x00, 0x00, 0x00];
    wasm.push(0);
    wasm.push(1 + name.len() as u8 + 12);
    wasm.push(name.len() as u8);
    wasm.extend_from_slice(name.as_bytes());
    wasm.extend_from_slice(&[0; 4]);
    wasm.extend_from_slice(&env.ledger().get().protocol_version.to_be_bytes());
    wasm.extend_from_slice(&[0; 4]);
    wasm
}

#[test]
fn test_upgrade() {
    let f = plain();
    let env = &f.stage.env;
    let wasm = smallest_wasm(env);
    let hash = env.deployer().upload_contract_wasm(wasm.as_slice());
    let new_wasm_hash = Hash32 { bytes: hash.to_array() };
    f.stage.call(|c, ctx, fx| c.upgrade(ctx, fx, new_wasm_hash));
}

#[test]
#[should_panic(expected = "not initialized")]
fn test_upgrade_unauthorized_not_initialized() {
    let stage = Stage::new();
    let wasm = smallest_wasm(&stage.env);
    let hash = stage.env.deployer().upload_contract_wasm(wasm.as_slice());
    let new_wasm_hash = Hash32 { bytes: hash.to_array() };
    stage.call(|c, ctx, fx| c.upgrade(ctx, fx, new_wasm_hash));
}

#[test]
fn an_upgrade_replaces_the_code_and_announces_it() {
    let mut router = LicenseRouter::new();
    let me = |s: &str| Address { strkey: text(s) };
    router.initialize(&mut Effects::new(), me("admin"), me("registry")).unwrap();
    let ctx = Context { sequence: 12, timestamp: 120, contract: me("contract") };
    let hash = Hash32 { bytes: [5u8; 32] };
    let mut fx = Effects::new();
    router.upgrade(&ctx, &mut fx, hash).unwrap();
    assert_eq!(
        fx.list,
        vec![
            Effect::Authorize(me("admin")),
            Effect::Upgrade(hash),
            Effect::Publish {
                group: "contract",
                name: "upgraded",
                data: vec![Value::Digest(hash), Value::U32(12)],
            },
        ]
    );
}

// Prices: each kind at its exact minimum and one below.

#[test]
fn test_nonprofit_license_at_exact_minimum_succeeds() {
    let f = plain();
    let id = f.issue_at(LicenseType::NonProfit, 1_000_000); // 0.1 USDC
    let license = f.license(&id);
    assert_eq!(license.license_type, LicenseType::NonProfit);
    assert_eq!(license.fee_paid_stroops, 1_000_000);
    assert_eq!(license.state, LicenseState::Active);
}

#[test]
#[should_panic(expected = "Error(Contract, #4)")]
fn test_nonprofit_license_one_stroop_under_minimum_panics() {
    plain().issue_at(LicenseType::NonProfit, 999_999);
}

#[test]
fn test_government_license_at_exact_minimum_succeeds() {
    let f = plain();
    let id = f.issue_at(LicenseType::Government, 10_000_000); // 1 USDC
    let license = f.license(&id);
    assert_eq!(license.license_type, LicenseType::Government);
    assert_eq!(license.fee_paid_stroops, 10_000_000);
}

#[test]
#[should_panic(expected = "Error(Contract, #4)")]
fn test_government_license_one_stroop_under_minimum_panics() {
    plain().issue_at(LicenseType::Government, 9_999_999);
}

#[test]
fn test_commercial_license_at_exact_minimum_succeeds() {
    let f = plain();
    let id = f.issue_at(LicenseType::Commercial, 100_000_000); // 10 USDC
    assert_eq!(f.license(&id).fee_paid_stroops, 100_000_000);
}

#[test]
fn test_research_license_accepts_an_overpayment() {
    let f = plain();
    // Zero is a floor and not a fixed price.
    let id = f.issue_at(LicenseType::Research, 5_000_000);
    let license = f.license(&id);
    assert_eq!(license.license_type, LicenseType::Research);
    assert_eq!(license.fee_paid_stroops, 5_000_000);
}

#[test]
fn nobody_is_paid_for_a_license() {
    let f = plain();
    assert_eq!(
        f.try_issue("ds_x", LicenseType::Research, 1, -1),
        Err(Some(Error::InsufficientLicenseFee))
    );
    assert_eq!(LicenseRouter::min_fee(LicenseType::Research), 0);
}

// Expiry.

#[test]
fn test_license_is_valid_on_its_expiry_ledger_and_invalid_the_next() {
    let f = plain();
    f.stage.at_ledger(500);
    let id = f.issue_at(LicenseType::Commercial, 100_000_000);
    let expiry = f.license(&id).expiry_ledger;
    assert_eq!(expiry, 1500); // issued at 500, duration 1000

    f.stage.at_ledger(expiry - 1);
    assert!(f.is_valid(&id));

    f.stage.at_ledger(expiry);
    assert!(f.is_valid(&id));

    f.stage.at_ledger(expiry + 1);
    assert!(!f.is_valid(&id));
}

#[test]
fn test_zero_duration_license_expires_on_the_ledger_it_was_issued() {
    let f = plain();
    f.stage.at_ledger(900);
    let id = f.issue("ds_zero", LicenseType::Research, 0, 0);

    let license = f.license(&id);
    assert_eq!(license.issued_ledger, license.expiry_ledger);
    assert!(f.is_valid(&id));

    f.stage.at_ledger(901);
    assert!(!f.is_valid(&id));
}

#[test]
fn test_unknown_license_is_invalid_rather_than_panicking() {
    let f = plain();
    assert!(!f.is_valid(&text("lic_404")));
}

// Revocation.

#[test]
fn test_revoked_license_is_not_revived_by_expiry_still_being_in_the_future() {
    let f = plain();
    f.stage.at_ledger(100);
    let id = f.issue_at(LicenseType::Commercial, 100_000_000);
    f.revoke(&id);

    // Well inside the term, and still invalid.
    f.stage.at_ledger(500);
    assert!(!f.is_valid(&id));
    assert_eq!(f.license(&id).state, LicenseState::Revoked);
}

#[test]
fn test_revoking_twice_leaves_the_license_revoked() {
    let f = plain();
    let id = f.issue_at(LicenseType::Commercial, 100_000_000);
    f.revoke(&id);
    f.revoke(&id);
    assert_eq!(f.license(&id).state, LicenseState::Revoked);
    assert!(!f.is_valid(&id));
}

#[test]
fn test_reissuing_for_the_same_dataset_does_not_reactivate_a_revoked_license() {
    let f = plain();
    let first = f.issue_at(LicenseType::Commercial, 100_000_000);
    f.revoke(&first);

    // A fresh license is a new record with a new id.
    let second = f.issue_at(LicenseType::Commercial, 100_000_000);
    assert_ne!(first, second);

    assert!(!f.is_valid(&first));
    assert!(f.is_valid(&second));
}

#[test]
#[should_panic(expected = "Error(Contract, #5)")]
fn test_revoking_an_unknown_license_panics() {
    plain().revoke(&text("lic_404"));
}

#[test]
fn only_the_admin_revokes() {
    let f = plain();
    let id = f.issue_at(LicenseType::Research, 0);
    f.stage.env.set_auths(&[]);
    assert_eq!(f.stage.attempt(|c, _, fx| c.revoke_license(fx, id.clone())), Err(None));
    assert!(f.is_valid(&id));
}

// Events.

#[test]
fn test_issue_and_revoke_emit_their_documented_topics() {
    let f = plain();
    let env = &f.stage.env;

    let id = f.issue_at(LicenseType::Commercial, 100_000_000);
    let license = f.license(&id);
    let issued: List<Val> = List::from_array(
        env,
        [
            Text::from_str(env, &id).into_val(env),
            Text::from_str(env, "ds_fee").into_val(env),
            account(env, &license.licensee).into_val(env),
            100_000_000i128.into_val(env),
            100_000_000i128.into_val(env),
        ],
    );
    assert_eq!(
        env.events().all(),
        List::from_array(
            env,
            [(
                f.stage.address.clone(),
                (Symbol::new(env, "license"), Symbol::new(env, "issued")).into_val(env),
                issued.into_val(env),
            )],
        )
    );

    f.revoke(&id);
    assert_eq!(
        env.events().all(),
        List::from_array(
            env,
            [(
                f.stage.address.clone(),
                (Symbol::new(env, "license"), Symbol::new(env, "revoked")).into_val(env),
                Text::from_str(env, &id).into_val(env),
            )],
        )
    );
}

// The admin and the freeze.

#[test]
fn nothing_of_the_admin_goes_before_the_router_is_initialized() {
    let stage = Stage::new();
    let who = stage.someone();
    let missing = Err(Some(Error::NotInitialized));
    assert_eq!(stage.attempt(|c, _, fx| c.set_oracle(fx, who.clone())), missing);
    assert_eq!(stage.attempt(|c, _, fx| c.revoke_license(fx, text("lic_1"))), missing);
    assert_eq!(stage.attempt(|c, ctx, fx| c.unpause(ctx, fx)), missing);
    stage.call(|c, _, fx| c.initialize(fx, who.clone(), who.clone()));
    assert_eq!(stage.contract.borrow().registry, Some(who.clone()));
    assert_eq!(
        stage.attempt(|c, _, fx| c.initialize(fx, who.clone(), who.clone())),
        Err(Some(Error::AlreadyInitialized))
    );
    assert_eq!(
        stage.attempt(|c, _, fx| c.accept_admin(fx)),
        Err(Some(Error::NoAdminProposalPending))
    );
}

#[test]
fn a_frozen_router_issues_and_revokes_nothing() {
    let f = plain();
    let id = f.issue_at(LicenseType::Research, 0);
    f.stage.call(|c, ctx, fx| c.pause(ctx, fx));
    assert!(f.stage.contract.borrow().is_paused());
    let frozen = Err(Some(Error::ContractPaused));
    assert!(
        f.try_issue("ds_x", LicenseType::Research, 1, 0) == Err(Some(Error::ContractPaused))
    );
    assert_eq!(f.stage.attempt(|c, _, fx| c.revoke_license(fx, id.clone())), frozen);
    let oracle = f.stage.someone();
    assert_eq!(f.stage.attempt(|c, _, fx| c.set_oracle(fx, oracle)), frozen);
    assert_eq!(
        f.stage.attempt(|c, ctx, fx| c.pause(ctx, fx)),
        Err(Some(Error::AlreadyPaused))
    );
    assert!(f.is_valid(&id));
    f.renew(&id);
    f.stage.call(|c, ctx, fx| c.unpause(ctx, fx));
    assert_eq!(
        f.stage.attempt(|c, ctx, fx| c.unpause(ctx, fx)),
        Err(Some(Error::NotPaused))
    );
    f.revoke(&id);
    assert!(!f.is_valid(&id));
    assert_eq!(LicenseRouter::version(), 3);
}

// Lifetimes.

fn issue_for(f: &Fixture, duration: u32) -> String {
    f.issue("ds_ttl", LicenseType::Commercial, duration, 100_000_000)
}

#[test]
fn test_issue_license_extends_ttl_on_creation() {
    let f = plain();
    let id = issue_for(&f, 1000);
    assert_eq!(f.ttl(&id), f.stage.full_window());
}

#[test]
fn test_revoke_license_renews_ttl() {
    let f = plain();
    let id = issue_for(&f, 1000);

    f.stage.advance(1_000_000);
    assert!(f.ttl(&id) < f.stage.full_window());

    f.revoke(&id);

    // The record is the evidence that the revocation happened.
    assert_eq!(f.ttl(&id), f.stage.full_window());
    assert_eq!(f.license(&id).state, LicenseState::Revoked);
}

#[test]
fn test_renew_license_ttl_is_permissionless() {
    let f = plain();
    let id = issue_for(&f, 50_000_000);

    f.stage.advance(2_000_000);
    assert!(f.ttl(&id) < f.stage.full_window());

    f.stage.env.set_auths(&[]);
    f.renew(&id);

    assert_eq!(f.ttl(&id), f.stage.full_window());
}

#[test]
#[should_panic(expected = "license not found")]
fn test_renew_license_ttl_unknown_id_panics() {
    plain().renew(&text("lic_404"));
}

#[test]
fn test_multi_year_license_survives_renewal_across_long_ledger_advance() {
    let f = plain();
    let id = issue_for(&f, 60_000_000);
    let window = f.stage.full_window();

    for _ in 0..9 {
        f.stage.advance(window - 1);
        f.renew(&id);
    }

    // Still readable, still valid, and its terms are unchanged.
    let license = f.license(&id);
    assert_eq!(license.fee_paid_stroops, 100_000_000);
    assert_eq!(license.license_type, LicenseType::Commercial);
    assert!(f.is_valid(&id));
}

#[test]
fn test_renewal_does_not_resurrect_an_expired_license() {
    let f = plain();
    let id = issue_for(&f, 1000);

    f.stage.advance(2000);
    assert!(!f.is_valid(&id));

    // Keeping the record readable must not make a lapsed license count again.
    f.renew(&id);

    assert_eq!(f.ttl(&id), f.stage.full_window());
    assert!(!f.is_valid(&id));
}
