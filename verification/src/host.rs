//! The boundary between a contract and the host that runs it.
//!
//! A contract reads a [`Context`] and leaves behind [`Effects`]: what it asks
//! the host to do, in order. The host carries them out in one transaction. It
//! undoes the whole call where an authorization or a transfer is refused, and
//! where the contract itself answered with an error; of a call that ends in an
//! error only the authorizations are carried out, since they come first.

use crate::table::Key;
use crate::text::{hex, hex_text, lemma_hex_injective};
use vstd::prelude::*;

verus! {

/// How many ledgers a stored entry is kept before it may be archived: 7,776,000
/// ledgers, about ninety days at one ledger a second.
pub const PERSISTENT_TTL: u32 = 7_776_000;

/// An account or a contract, by its text form.
#[derive(Debug, PartialEq, Eq)]
pub struct Address {
    pub strkey: String,
}

impl View for Address {
    type V = Seq<char>;

    open spec fn view(&self) -> Seq<char> {
        self.strkey@
    }
}

impl Clone for Address {
    fn clone(&self) -> (r: Self)
        ensures
            r@ == self@,
    {
        Address { strkey: self.strkey.clone() }
    }
}

impl Key for Address {
    fn same(&self, other: &Self) -> (b: bool) {
        self.strkey.same(&other.strkey)
    }
}

/// A 32-byte content hash.
#[derive(Clone, Copy, Debug, PartialEq, Eq)]
pub struct Hash32 {
    pub bytes: [u8; 32],
}

impl View for Hash32 {
    type V = Seq<u8>;

    open spec fn view(&self) -> Seq<u8> {
        self.bytes@
    }
}

/// The hash that stands for no content at all.
pub open spec fn zero_hash() -> Seq<u8> {
    Seq::new(32, |i: int| 0u8)
}

impl Key for Hash32 {
    fn same(&self, other: &Self) -> (b: bool) {
        let mut i: usize = 0;
        while i < 32
            invariant
                i <= 32,
                forall|j: int| 0 <= j < i ==> self@[j] == other@[j],
            decreases 32 - i,
        {
            if self.bytes[i] != other.bytes[i] {
                return false;
            }
            i = i + 1;
        }
        assert(self@ =~= other@);
        true
    }
}

impl Hash32 {
    /// Whether every byte is zero.
    pub fn is_zero(&self) -> (b: bool)
        ensures
            b == (self@ == zero_hash()),
    {
        let mut i: usize = 0;
        while i < 32
            invariant
                i <= 32,
                forall|j: int| 0 <= j < i ==> self@[j] == 0,
            decreases 32 - i,
        {
            if self.bytes[i] != 0 {
                assert(zero_hash()[i as int] == 0);
                return false;
            }
            i = i + 1;
        }
        assert(self@ =~= zero_hash());
        true
    }
}

/// The views of a vector's items.
pub open spec fn views<T: View>(items: Seq<T>) -> Seq<T::V> {
    Seq::new(items.len(), |i: int| items[i]@)
}

/// The view of an optional item.
pub open spec fn view_opt<T: View>(item: Option<T>) -> Option<T::V> {
    match item {
        Some(x) => Some(x@),
        None => None,
    }
}

/// The view of an answer: that of its value, or the error.
pub open spec fn view_result<T: View, E>(answer: Result<T, E>) -> Result<T::V, E> {
    match answer {
        Ok(x) => Ok(x@),
        Err(e) => Err(e),
    }
}

/// Copies an optional address.
pub fn copy_address(item: &Option<Address>) -> (r: Option<Address>)
    ensures
        view_opt(r) == view_opt(*item),
{
    match item {
        Some(x) => Some(x.clone()),
        None => None,
    }
}

/// Copies an optional text.
pub fn copy_text(item: &Option<String>) -> (r: Option<String>)
    ensures
        view_opt(r) == view_opt(*item),
{
    match item {
        Some(x) => Some(x.clone()),
        None => None,
    }
}

/// What a contract knows of the call it is answering.
#[derive(Clone, Debug)]
pub struct Context {
    /// The current ledger.
    pub sequence: u32,
    /// When that ledger closed, in seconds.
    pub timestamp: u64,
    /// The contract's own address.
    pub contract: Address,
}

#[verifier::ext_equal]
pub struct ContextModel {
    pub sequence: u32,
    pub timestamp: u64,
    pub contract: Seq<char>,
}

impl View for Context {
    type V = ContextModel;

    open spec fn view(&self) -> ContextModel {
        ContextModel {
            sequence: self.sequence,
            timestamp: self.timestamp,
            contract: self.contract@,
        }
    }
}

/// The name of a stored entry.
#[derive(Debug, PartialEq, Eq)]
pub enum StorageKey {
    /// The contract's own entry, with its admin, its counters and its settings.
    Instance,
    /// A commission, by its id.
    Commission(String),
    /// A dataset, by its id.
    Dataset(String),
    /// The id of the dataset with this metadata hash.
    HashIndex(Hash32),
    /// The reputation of a contributor.
    Reputation(Address),
    /// A license, by its id.
    License(String),
    /// The standing of a curator.
    Curator(Address),
    /// What a curator attested for a dataset.
    Attestation(String, Address),
    /// Who attested for a dataset.
    Attesters(String),
    /// The aggregate quality of a dataset.
    Quality(String),
    /// A split configuration, by its dataset's id, or a payout receipt, by its
    /// number: the royalty splitter keeps both under plain texts.
    Record(String),
}

#[verifier::ext_equal]
pub enum KeyModel {
    Instance,
    Commission(Seq<char>),
    Dataset(Seq<char>),
    HashIndex(Seq<u8>),
    Reputation(Seq<char>),
    License(Seq<char>),
    Curator(Seq<char>),
    Attestation(Seq<char>, Seq<char>),
    Attesters(Seq<char>),
    Quality(Seq<char>),
    Record(Seq<char>),
}

impl View for StorageKey {
    type V = KeyModel;

    open spec fn view(&self) -> KeyModel {
        match self {
            StorageKey::Instance => KeyModel::Instance,
            StorageKey::Commission(id) => KeyModel::Commission(id@),
            StorageKey::Dataset(id) => KeyModel::Dataset(id@),
            StorageKey::HashIndex(hash) => KeyModel::HashIndex(hash@),
            StorageKey::Reputation(who) => KeyModel::Reputation(who@),
            StorageKey::License(id) => KeyModel::License(id@),
            StorageKey::Curator(who) => KeyModel::Curator(who@),
            StorageKey::Attestation(id, who) => KeyModel::Attestation(id@, who@),
            StorageKey::Attesters(id) => KeyModel::Attesters(id@),
            StorageKey::Quality(id) => KeyModel::Quality(id@),
            StorageKey::Record(id) => KeyModel::Record(id@),
        }
    }
}

/// Who keeps records of which kind.
pub enum Keeper {
    Commissions,
    Registry,
    Router,
    Oracle,
    Splitter,
}

impl KeyModel {
    /// The text under which an entry is stored: the id itself, or a prefix for
    /// the kind of entry and what it is found by. The contract's own entry has
    /// none.
    pub open spec fn name(self) -> Option<Seq<char>> {
        match self {
            KeyModel::Instance => None,
            KeyModel::Commission(id) => Some(id),
            KeyModel::Dataset(id) => Some(id),
            KeyModel::HashIndex(hash) => Some("hash_"@ + hex(hash)),
            KeyModel::Reputation(who) => Some("rep_"@ + who),
            KeyModel::License(id) => Some(id),
            KeyModel::Curator(who) => Some("cur_"@ + who),
            KeyModel::Attestation(id, who) => Some("att_"@ + id + "_"@ + who),
            KeyModel::Attesters(id) => Some("alist_"@ + id),
            KeyModel::Quality(id) => Some("agg_"@ + id),
            KeyModel::Record(id) => Some(id),
        }
    }

    /// Which contract keeps entries of this kind: each has its own storage, and
    /// all have an entry of their own.
    pub open spec fn keeper(self) -> Option<Keeper> {
        match self {
            KeyModel::Instance => None,
            KeyModel::Commission(_) => Some(Keeper::Commissions),
            KeyModel::Dataset(_) => Some(Keeper::Registry),
            KeyModel::HashIndex(_) => Some(Keeper::Registry),
            KeyModel::Reputation(_) => Some(Keeper::Registry),
            KeyModel::License(_) => Some(Keeper::Router),
            KeyModel::Curator(_) => Some(Keeper::Oracle),
            KeyModel::Attestation(_, _) => Some(Keeper::Oracle),
            KeyModel::Attesters(_) => Some(Keeper::Oracle),
            KeyModel::Quality(_) => Some(Keeper::Oracle),
            KeyModel::Record(_) => Some(Keeper::Splitter),
        }
    }

    /// Whether a dataset's id is one that the registry gives out.
    pub open spec fn has_issued_id(self) -> bool {
        self matches KeyModel::Dataset(id) ==> "ds_"@.is_prefix_of(id)
    }
}

/// No two entries of one contract are stored under the same text. Addresses
/// are of one length, so that an id and an address after it can be told apart.
pub proof fn law_names_differ(a: KeyModel, b: KeyModel)
    requires
        a != b,
        a.keeper() == b.keeper(),
        a.has_issued_id(),
        b.has_issued_id(),
        a is Attestation && b is Attestation ==> a->Attestation_1.len() == b->Attestation_1.len(),
    ensures
        a.name() != b.name(),
{
    reveal_strlit("ds_");
    reveal_strlit("hash_");
    reveal_strlit("rep_");
    reveal_strlit("cur_");
    reveal_strlit("att_");
    reveal_strlit("alist_");
    reveal_strlit("agg_");
    if a.name() == b.name() {
        let name = a.name()->0;
        match (a, b) {
            (KeyModel::HashIndex(x), KeyModel::HashIndex(y)) => {
                assert(name.skip(5) =~= hex(x));
                assert(name.skip(5) =~= hex(y));
                lemma_hex_injective(x, y);
            },
            (KeyModel::Reputation(x), KeyModel::Reputation(y)) => {
                assert(name.skip(4) =~= x);
                assert(name.skip(4) =~= y);
            },
            (KeyModel::Curator(x), KeyModel::Curator(y)) => {
                assert(name.skip(4) =~= x);
                assert(name.skip(4) =~= y);
            },
            (KeyModel::Attesters(x), KeyModel::Attesters(y)) => {
                assert(name.skip(6) =~= x);
                assert(name.skip(6) =~= y);
            },
            (KeyModel::Quality(x), KeyModel::Quality(y)) => {
                assert(name.skip(4) =~= x);
                assert(name.skip(4) =~= y);
            },
            (KeyModel::Attestation(x, who), KeyModel::Attestation(y, other)) => {
                let n = name.len() - who.len();
                let gap = "_"@.len() as int;
                assert(name.skip(n) =~= who);
                assert(name.skip(n) =~= other);
                assert(name.subrange(4, n - gap) =~= x);
                assert(name.subrange(4, n - gap) =~= y);
            },
            _ => {
                // The kinds differ in the first two characters.
                if a is Dataset || b is Dataset {
                    assert(name.subrange(0, "ds_"@.len() as int)[0] == 'd');
                }
                assert(name[0] != b.name()->0[0] || name[1] != b.name()->0[1]);
            },
        }
    }
}

impl StorageKey {
    /// The text under which the entry is stored, unless it is the contract's
    /// own.
    pub fn name(&self) -> (r: Option<String>)
        ensures
            view_opt(r) == self@.name(),
    {
        match self {
            StorageKey::Instance => None,
            StorageKey::Commission(id) => Some(id.clone()),
            StorageKey::Dataset(id) => Some(id.clone()),
            StorageKey::HashIndex(hash) => Some(joined("hash_", hex_text(&hash.bytes).as_str())),
            StorageKey::Reputation(who) => Some(joined("rep_", who.strkey.as_str())),
            StorageKey::License(id) => Some(id.clone()),
            StorageKey::Curator(who) => Some(joined("cur_", who.strkey.as_str())),
            StorageKey::Attestation(id, who) => {
                let mut text = joined("att_", id.as_str());
                text.append("_");
                text.append(who.strkey.as_str());
                Some(text)
            },
            StorageKey::Attesters(id) => Some(joined("alist_", id.as_str())),
            StorageKey::Quality(id) => Some(joined("agg_", id.as_str())),
            StorageKey::Record(id) => Some(id.clone()),
        }
    }
}

/// One text after another.
fn joined(prefix: &str, rest: &str) -> (r: String)
    ensures
        r@ == prefix@ + rest@,
{
    let mut text = prefix.to_owned();
    text.append(rest);
    text
}

/// One item of an event's data.
#[derive(Debug, PartialEq, Eq)]
pub enum Value {
    Text(String),
    Account(Address),
    Digest(Hash32),
    U32(u32),
    U64(u64),
    I128(i128),
    Flag(bool),
    /// A variant without fields, by its name.
    Variant(&'static str),
}

#[verifier::ext_equal]
pub enum ValueModel {
    Text(Seq<char>),
    Account(Seq<char>),
    Digest(Seq<u8>),
    U32(u32),
    U64(u64),
    I128(i128),
    Flag(bool),
    Variant(Seq<char>),
}

impl View for Value {
    type V = ValueModel;

    open spec fn view(&self) -> ValueModel {
        match self {
            Value::Text(x) => ValueModel::Text(x@),
            Value::Account(x) => ValueModel::Account(x@),
            Value::Digest(x) => ValueModel::Digest(x@),
            Value::U32(x) => ValueModel::U32(*x),
            Value::U64(x) => ValueModel::U64(*x),
            Value::I128(x) => ValueModel::I128(*x),
            Value::Flag(x) => ValueModel::Flag(*x),
            Value::Variant(x) => ValueModel::Variant(x@),
        }
    }
}

/// Something the host is asked to do.
#[derive(Debug, PartialEq, Eq)]
pub enum Effect {
    /// Refuse the whole call unless this address authorized it.
    Authorize(Address),
    /// Move tokens.
    Transfer { token: Address, from: Address, to: Address, amount: i128 },
    /// Where the entry would lapse within `threshold` ledgers, keep it for
    /// `extend_to` more.
    Extend { key: StorageKey, threshold: u32, extend_to: u32 },
    /// Publish an event under two topics.
    Publish { group: &'static str, name: &'static str, data: Vec<Value> },
    /// Replace the contract's code.
    Upgrade(Hash32),
}

#[verifier::ext_equal]
pub enum EffectModel {
    Authorize(Seq<char>),
    Transfer { token: Seq<char>, from: Seq<char>, to: Seq<char>, amount: i128 },
    Extend { key: KeyModel, threshold: u32, extend_to: u32 },
    Publish { group: Seq<char>, name: Seq<char>, data: Seq<ValueModel> },
    Upgrade(Seq<u8>),
}

impl View for Effect {
    type V = EffectModel;

    open spec fn view(&self) -> EffectModel {
        match self {
            Effect::Authorize(who) => EffectModel::Authorize(who@),
            Effect::Transfer { token, from, to, amount } => EffectModel::Transfer {
                token: token@,
                from: from@,
                to: to@,
                amount: *amount,
            },
            Effect::Extend { key, threshold, extend_to } => EffectModel::Extend {
                key: key@,
                threshold: *threshold,
                extend_to: *extend_to,
            },
            Effect::Publish { group, name, data } => EffectModel::Publish {
                group: group@,
                name: name@,
                data: views(data@),
            },
            Effect::Upgrade(hash) => EffectModel::Upgrade(hash@),
        }
    }
}

/// The request to keep an entry for another full window.
pub open spec fn keep(key: KeyModel) -> EffectModel {
    EffectModel::Extend { key, threshold: PERSISTENT_TTL, extend_to: PERSISTENT_TTL }
}

/// The event with these topics and this data.
pub open spec fn event(group: Seq<char>, name: Seq<char>, data: Seq<ValueModel>) -> EffectModel {
    EffectModel::Publish { group, name, data }
}

/// What a call asks of the host, in order.
#[derive(Debug)]
pub struct Effects {
    pub list: Vec<Effect>,
}

impl View for Effects {
    type V = Seq<EffectModel>;

    open spec fn view(&self) -> Seq<EffectModel> {
        views(self.list@)
    }
}

impl Effects {
    /// Nothing asked yet.
    pub fn new() -> (r: Self)
        ensures
            r@ == Seq::<EffectModel>::empty(),
    {
        let r = Effects { list: Vec::new() };
        assert(r@ =~= Seq::<EffectModel>::empty());
        r
    }

    /// Asks for one thing more.
    pub fn add(&mut self, effect: Effect)
        ensures
            final(self)@ == old(self)@.push(effect@),
    {
        self.list.push(effect);
        assert(self@ =~= old(self)@.push(effect@));
    }

    /// Asks that `who` authorized the call.
    pub fn authorize(&mut self, who: &Address)
        ensures
            final(self)@ == old(self)@.push(EffectModel::Authorize(who@)),
    {
        self.add(Effect::Authorize(who.clone()));
    }

    /// Asks to keep an entry for another full window.
    pub fn keep(&mut self, key: StorageKey)
        ensures
            final(self)@ == old(self)@.push(keep(key@)),
    {
        self.add(Effect::Extend { key, threshold: PERSISTENT_TTL, extend_to: PERSISTENT_TTL });
    }

    /// Asks to move tokens.
    pub fn transfer(&mut self, token: &Address, from: &Address, to: &Address, amount: i128)
        ensures
            final(self)@ == old(self)@.push(
                EffectModel::Transfer { token: token@, from: from@, to: to@, amount },
            ),
    {
        self.add(
            Effect::Transfer { token: token.clone(), from: from.clone(), to: to.clone(), amount },
        );
    }

    fn publish(&mut self, group: &'static str, name: &'static str, data: Vec<Value>)
        ensures
            final(self)@ == old(self)@.push(event(group@, name@, views(data@))),
    {
        self.add(Effect::Publish { group, name, data });
    }

    /// Asks to publish an event with one item of data.
    pub fn publish_one(
        &mut self,
        group: &'static str,
        name: &'static str,
        a: Value,
    )
        ensures
            final(self)@ == old(self)@.push(
                event(group@, name@, seq![a@]),
            ),
    {
        let data: Vec<Value> = vec![a];
        assert(views(data@) =~= seq![a@]);
        self.publish(group, name, data);
    }

    /// Asks to publish an event with two items of data.
    pub fn publish_two(
        &mut self,
        group: &'static str,
        name: &'static str,
        a: Value,
        b: Value,
    )
        ensures
            final(self)@ == old(self)@.push(
                event(group@, name@, seq![a@, b@]),
            ),
    {
        let data: Vec<Value> = vec![a, b];
        assert(views(data@) =~= seq![a@, b@]);
        self.publish(group, name, data);
    }

    /// Asks to publish an event with three items of data.
    pub fn publish_three(
        &mut self,
        group: &'static str,
        name: &'static str,
        a: Value,
        b: Value,
        c: Value,
    )
        ensures
            final(self)@ == old(self)@.push(
                event(group@, name@, seq![a@, b@, c@]),
            ),
    {
        let data: Vec<Value> = vec![a, b, c];
        assert(views(data@) =~= seq![a@, b@, c@]);
        self.publish(group, name, data);
    }

    /// Asks to publish an event with four items of data.
    pub fn publish_four(
        &mut self,
        group: &'static str,
        name: &'static str,
        a: Value,
        b: Value,
        c: Value,
        d: Value,
    )
        ensures
            final(self)@ == old(self)@.push(
                event(group@, name@, seq![a@, b@, c@, d@]),
            ),
    {
        let data: Vec<Value> = vec![a, b, c, d];
        assert(views(data@) =~= seq![a@, b@, c@, d@]);
        self.publish(group, name, data);
    }

    /// Asks to publish an event with five items of data.
    pub fn publish_five(
        &mut self,
        group: &'static str,
        name: &'static str,
        a: Value,
        b: Value,
        c: Value,
        d: Value,
        e: Value,
    )
        ensures
            final(self)@ == old(self)@.push(
                event(group@, name@, seq![a@, b@, c@, d@, e@]),
            ),
    {
        let data: Vec<Value> = vec![a, b, c, d, e];
        assert(views(data@) =~= seq![a@, b@, c@, d@, e@]);
        self.publish(group, name, data);
    }
}

/// What a call answers, the state it leaves and what it asks of the host.
#[verifier::ext_equal]
pub struct Outcome<S, T, E> {
    pub answer: Result<T, E>,
    pub state: S,
    pub effects: Seq<EffectModel>,
}

/// A refused call: the state is as before, and only authorizations were asked.
pub open spec fn refuse<S, T, E>(state: S, asked: Seq<EffectModel>, error: E) -> Outcome<S, T, E> {
    Outcome { answer: Err(error), state, effects: asked }
}

/// A call that went through.
pub open spec fn accept<S, T, E>(state: S, effects: Seq<EffectModel>, value: T) -> Outcome<
    S,
    T,
    E,
> {
    Outcome { answer: Ok(value), state, effects }
}

/// Only 32 zero bytes stand for no content.
pub proof fn law_zero_hash(hash: Seq<u8>)
    ensures
        hash == zero_hash() <==> hash.len() == 32 && forall|i: int|
            0 <= i < 32 ==> #[trigger] hash[i] == 0,
{
    if hash.len() == 32 && forall|i: int| 0 <= i < 32 ==> #[trigger] hash[i] == 0 {
        assert(hash =~= zero_hash());
    }
    if hash == zero_hash() {
        assert forall|i: int| 0 <= i < 32 implies #[trigger] hash[i] == 0 by {}
    }
}

/// An entry is kept for 7,776,000 ledgers from now, whatever was left to it.
pub proof fn law_keep(key: KeyModel)
    ensures
        keep(key) == (EffectModel::Extend {
            key,
            threshold: 7_776_000,
            extend_to: 7_776_000,
        }),
{
}

/// An event has the topics and the data that it is published with.
pub proof fn law_event(group: Seq<char>, name: Seq<char>, data: Seq<ValueModel>)
    ensures
        event(group, name, data) == (EffectModel::Publish { group, name, data }),
{
}

/// The text of each kind of entry: the id alone, or behind the kind's prefix.
pub proof fn law_names(id: Seq<char>, who: Seq<char>, hash: Seq<u8>)
    ensures
        KeyModel::Instance.name() is None,
        KeyModel::Commission(id).name() == Some(id),
        KeyModel::Dataset(id).name() == Some(id),
        KeyModel::License(id).name() == Some(id),
        KeyModel::Record(id).name() == Some(id),
        KeyModel::HashIndex(hash).name() == Some("hash_"@ + hex(hash)),
        KeyModel::Reputation(who).name() == Some("rep_"@ + who),
        KeyModel::Curator(who).name() == Some("cur_"@ + who),
        KeyModel::Attestation(id, who).name() == Some("att_"@ + id + "_"@ + who),
        KeyModel::Attesters(id).name() == Some("alist_"@ + id),
        KeyModel::Quality(id).name() == Some("agg_"@ + id),
{
}

/// A list, an optional item and an answer are seen item by item.
pub proof fn law_views<T: View, E>(items: Seq<T>, item: T, error: E)
    ensures
        views(items).len() == items.len(),
        forall|i: int| 0 <= i < items.len() ==> #[trigger] views(items)[i] == items[i]@,
        view_opt(Some(item)) == Some(item@),
        view_opt(None::<T>) is None,
        view_result(Ok::<T, E>(item)) == Ok::<T::V, E>(item@),
        view_result(Err::<T, E>(error)) == Err::<T::V, E>(error),
{
}

/// An address is its text, a hash its bytes, and a call its ledger, its time
/// and its contract.
pub proof fn law_plain_views(who: Address, hash: Hash32, ctx: Context)
    ensures
        who@ == who.strkey@,
        hash@ == hash.bytes@,
        ctx@.sequence == ctx.sequence,
        ctx@.timestamp == ctx.timestamp,
        ctx@.contract == ctx.contract.strkey@,
{
}

/// A key is of its own kind, and found by what it holds.
pub proof fn law_key_views(id: String, who: Address, hash: Hash32)
    ensures
        StorageKey::Instance@ == KeyModel::Instance,
        StorageKey::Commission(id)@ == KeyModel::Commission(id@),
        StorageKey::Dataset(id)@ == KeyModel::Dataset(id@),
        StorageKey::HashIndex(hash)@ == KeyModel::HashIndex(hash@),
        StorageKey::Reputation(who)@ == KeyModel::Reputation(who@),
        StorageKey::License(id)@ == KeyModel::License(id@),
        StorageKey::Curator(who)@ == KeyModel::Curator(who@),
        StorageKey::Attestation(id, who)@ == KeyModel::Attestation(id@, who@),
        StorageKey::Attesters(id)@ == KeyModel::Attesters(id@),
        StorageKey::Quality(id)@ == KeyModel::Quality(id@),
        StorageKey::Record(id)@ == KeyModel::Record(id@),
{
}

/// What the host is asked is what stands in the list, in its order.
pub proof fn law_effect_views(fx: Effects, at: int)
    requires
        0 <= at < fx.list@.len(),
    ensures
        fx@.len() == fx.list@.len(),
        match fx.list@[at] {
            Effect::Authorize(who) => fx@[at] == EffectModel::Authorize(who@),
            Effect::Transfer { token, from, to, amount } => fx@[at] == (EffectModel::Transfer {
                token: token@,
                from: from@,
                to: to@,
                amount,
            }),
            Effect::Extend { key, threshold, extend_to } => fx@[at] == (EffectModel::Extend {
                key: key@,
                threshold,
                extend_to,
            }),
            Effect::Publish { group, name, data } => {
                &&& fx@[at] is Publish
                &&& fx@[at]->group == group@
                &&& fx@[at]->name == name@
                &&& fx@[at]->data.len() == data@.len()
                &&& forall|i: int|
                    0 <= i < data@.len() ==> #[trigger] fx@[at]->data[i] == data@[i]@
            },
            Effect::Upgrade(hash) => fx@[at] == EffectModel::Upgrade(hash@),
        },
{
}

/// An item of an event is of its own kind.
pub proof fn law_value_views(
    text: String,
    who: Address,
    hash: Hash32,
    small: u32,
    large: u64,
    amount: i128,
    flag: bool,
    name: &'static str,
)
    ensures
        Value::Text(text)@ == ValueModel::Text(text@),
        Value::Account(who)@ == ValueModel::Account(who@),
        Value::Digest(hash)@ == ValueModel::Digest(hash@),
        Value::U32(small)@ == ValueModel::U32(small),
        Value::U64(large)@ == ValueModel::U64(large),
        Value::I128(amount)@ == ValueModel::I128(amount),
        Value::Flag(flag)@ == ValueModel::Flag(flag),
        Value::Variant(name)@ == ValueModel::Variant(name@),
{
}

/// Whether one transfer is asked for, and it is this one.
pub open spec fn moves_only(
    effects: Seq<EffectModel>,
    token: Seq<char>,
    from: Seq<char>,
    to: Seq<char>,
    amount: int,
) -> bool {
    exists|at: int|
        {
            &&& 0 <= at < effects.len()
            &&& (#[trigger] effects[at]) matches EffectModel::Transfer {
                token: moved,
                from: payer,
                to: payee,
                amount: worth,
            } && moved == token && payer == from && payee == to && worth == amount
            &&& forall|i: int|
                0 <= i < effects.len() && i != at ==> !((#[trigger] effects[i]) is Transfer)
        }
}

/// Whether no transfer is asked for.
pub open spec fn moves_nothing(effects: Seq<EffectModel>) -> bool {
    forall|i: int| 0 <= i < effects.len() ==> !((#[trigger] effects[i]) is Transfer)
}

/// Whether `who` is asked to authorize the call, first of all, and nobody else
/// is.
pub open spec fn signed_only_by(effects: Seq<EffectModel>, who: Seq<char>) -> bool {
    &&& effects.len() > 0
    &&& effects[0] == EffectModel::Authorize(who)
    &&& forall|i: int| 1 <= i < effects.len() ==> !((#[trigger] effects[i]) is Authorize)
}

/// Whether nobody is asked to authorize the call.
pub open spec fn signed_by_nobody(effects: Seq<EffectModel>) -> bool {
    forall|i: int| 0 <= i < effects.len() ==> !((#[trigger] effects[i]) is Authorize)
}

} // verus!
