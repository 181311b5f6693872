//! The environment in which the registry runs: durable records, the ledger
//! clock and the event log, with the accessors through which the registry
//! reads and writes them.

use vstd::prelude::*;
use crate::types::{Address, Config, ConfigView, Error, GithubData, GithubDataView, Tier};

verus! {

/// The number of ledgers for which a nonce record lives after it was written.
pub const THIRTY_DAYS_IN_LEDGERS: u32 = 518_400;

/// What is kept for one holder.
#[derive(Copy, Clone, Debug, PartialEq, Eq)]
pub struct HolderState {
    /// Whether the holder has an identity.
    pub has_identity: bool,
    /// The holder's token, once minted.
    pub token_id: Option<u64>,
    /// The holder's replay counter, as last written.
    pub nonce: u64,
    /// The last ledger on which the replay counter is still kept.
    pub nonce_live_until: u64,
}

impl HolderState {
    /// The state of a holder of whom nothing was ever written.
    pub open spec fn blank() -> HolderState {
        HolderState { has_identity: false, token_id: None, nonce: 0, nonce_live_until: 0 }
    }
}

/// The two notifications that the registry publishes.
#[derive(Copy, Clone, Debug, PartialEq, Eq, Structural)]
pub enum EventKind {
    IdentityMinted,
    IdentityUpdated,
}

impl EventKind {
    /// The topic under which the notification goes out.
    pub open spec fn topic(self) -> Seq<char> {
        match self {
            EventKind::IdentityMinted => "identity_minted"@,
            EventKind::IdentityUpdated => "identity_updated"@,
        }
    }

    /// The topic under which the notification goes out.
    pub fn to_topic(&self) -> (s: String)
        ensures
            s@ == self.topic(),
    {
        match self {
            EventKind::IdentityMinted => "identity_minted".to_owned(),
            EventKind::IdentityUpdated => "identity_updated".to_owned(),
        }
    }
}

/// A notification of a mint or an update.
#[derive(Debug, PartialEq, Eq)]
pub struct Event {
    pub kind: EventKind,
    pub caller: Address,
    pub token_id: u64,
    pub username: String,
    pub contributions: u32,
    pub tier: Tier,
}

/// What a notification holds.
pub struct EventView {
    pub kind: EventKind,
    pub caller: Seq<u8>,
    pub token_id: u64,
    pub username: Seq<char>,
    pub contributions: u32,
    pub tier: Tier,
}

impl View for Event {
    type V = EventView;

    open spec fn view(&self) -> EventView {
        EventView {
            kind: self.kind,
            caller: self.caller@,
            token_id: self.token_id,
            username: self.username@,
            contributions: self.contributions,
            tier: self.tier,
        }
    }
}

impl Clone for Event {
    fn clone(&self) -> (res: Self)
        ensures
            res@ == self@,
    {
        Event {
            kind: self.kind,
            caller: self.caller.clone(),
            token_id: self.token_id,
            username: self.username.clone(),
            contributions: self.contributions,
            tier: self.tier,
        }
    }
}

#[derive(Clone, Debug, PartialEq, Eq)]
struct TokenEntry {
    token_id: u64,
    data: GithubData,
}

#[derive(Clone, Debug, PartialEq, Eq)]
struct HolderEntry {
    holder: Address,
    state: HolderState,
}

/// The environment of the registry. Records are kept as lists of entries in
/// which the latest entry of a key is the one that counts.
#[derive(Clone, Debug, PartialEq, Eq)]
pub struct Env {
    config: Option<Config>,
    token_counter: Option<u64>,
    tokens: Vec<TokenEntry>,
    holders: Vec<HolderEntry>,
    timestamp: u64,
    sequence: u32,
    events: Vec<Event>,
    approvals: Vec<Address>,
    all_approved: bool,
}

/// What an environment holds.
pub struct EnvView {
    /// The configuration, once the registry is initialized.
    pub config: Option<ConfigView>,
    /// The stored token counter, once a token was minted.
    pub token_counter: Option<u64>,
    /// The identity record of each token.
    pub tokens: Map<u64, GithubDataView>,
    /// What was written for each holder.
    pub holders: Map<Seq<u8>, HolderState>,
    /// The time of the ledger.
    pub timestamp: u64,
    /// The number of the ledger.
    pub sequence: u32,
    /// The notifications published so far, oldest first.
    pub events: Seq<EventView>,
    /// The callers who have proved to the host that the call is theirs.
    pub authenticated: Set<Seq<u8>>,
}

impl EnvView {
    /// The fee for a mint: that of the configuration, 0 without one.
    pub open spec fn mint_fee(self) -> i128 {
        match self.config {
            Some(c) => c.mint_fee,
            None => 0,
        }
    }

    /// The id that the next token gets: 1 until a token was minted.
    pub open spec fn next_token_id(self) -> u64 {
        match self.token_counter {
            Some(n) => n,
            None => 1,
        }
    }

    /// What is kept for `holder`.
    pub open spec fn holder(self, holder: Seq<u8>) -> HolderState {
        if self.holders.contains_key(holder) {
            self.holders[holder]
        } else {
            HolderState::blank()
        }
    }

    /// Whether `holder` is flagged as having an identity.
    pub open spec fn has_identity(self, holder: Seq<u8>) -> bool {
        self.holder(holder).has_identity
    }

    /// The token of `holder`, if any.
    pub open spec fn holder_token(self, holder: Seq<u8>) -> Option<u64> {
        self.holder(holder).token_id
    }

    /// The replay counter of `holder`: the stored one while its record
    /// lives, 0 once it has expired or where none was written.
    pub open spec fn nonce(self, holder: Seq<u8>) -> u64 {
        let state = self.holder(holder);
        if state.nonce_live_until >= self.sequence {
            state.nonce
        } else {
            0
        }
    }

    /// This environment with the state of `holder` replaced.
    pub open spec fn with_holder(self, holder: Seq<u8>, state: HolderState) -> EnvView {
        EnvView { holders: self.holders.insert(holder, state), ..self }
    }

    /// This environment with the record of `token_id` replaced.
    pub open spec fn with_token(self, token_id: u64, data: GithubDataView) -> EnvView {
        EnvView { tokens: self.tokens.insert(token_id, data), ..self }
    }
}

/// The map that a list of entries stands for: a later entry overrides an
/// earlier one of the same key.
spec fn assoc<K, V>(entries: Seq<(K, V)>) -> Map<K, V>
    decreases entries.len(),
{
    if entries.len() == 0 {
        Map::empty()
    } else {
        assoc(entries.drop_last()).insert(entries.last().0, entries.last().1)
    }
}

proof fn lemma_assoc_take<K, V>(entries: Seq<(K, V)>, i: int)
    requires
        0 <= i < entries.len(),
    ensures
        assoc(entries.take(i + 1)) == assoc(entries.take(i)).insert(entries[i].0, entries[i].1),
{
    assert(entries.take(i + 1).drop_last() =~= entries.take(i));
}

proof fn lemma_assoc_push<K, V>(entries: Seq<(K, V)>, key: K, value: V)
    ensures
        assoc(entries.push((key, value))) == assoc(entries).insert(key, value),
{
    assert(entries.push((key, value)).drop_last() =~= entries);
}

proof fn lemma_assoc_update<K, V>(entries: Seq<(K, V)>, i: int, key: K, value: V)
    requires
        0 <= i < entries.len(),
        entries[i].0 == key,
        forall|j: int| i < j < entries.len() ==> entries[j].0 != key,
    ensures
        assoc(entries.update(i, (key, value))) == assoc(entries).insert(key, value),
    decreases entries.len(),
{
    let changed = entries.update(i, (key, value));
    if i == entries.len() - 1 {
        assert(changed.drop_last() =~= entries.drop_last());
        assert(assoc(changed) =~= assoc(entries).insert(key, value));
    } else {
        let last = entries.last();
        assert(changed.drop_last() =~= entries.drop_last().update(i, (key, value)));
        lemma_assoc_update(entries.drop_last(), i, key, value);
        assert(last.0 != key);
        assert(assoc(changed) =~= assoc(entries).insert(key, value));
    }
}

spec fn token_pairs(entries: Seq<TokenEntry>) -> Seq<(u64, GithubDataView)> {
    Seq::new(entries.len(), |i: int| (entries[i].token_id, entries[i].data@))
}

spec fn holder_pairs(entries: Seq<HolderEntry>) -> Seq<(Seq<u8>, HolderState)> {
    Seq::new(entries.len(), |i: int| (entries[i].holder@, entries[i].state))
}

spec fn approved(all: bool, approvals: Seq<Address>) -> Set<Seq<u8>> {
    if all {
        Set::full()
    } else {
        Set::new(|who: Seq<u8>| exists|i: int| 0 <= i < approvals.len() && approvals[i]@ == who)
    }
}

spec fn token_map(entries: Seq<TokenEntry>) -> Map<u64, GithubDataView> {
    assoc(token_pairs(entries))
}

spec fn holder_map(entries: Seq<HolderEntry>) -> Map<Seq<u8>, HolderState> {
    assoc(holder_pairs(entries))
}

impl View for Env {
    type V = EnvView;

    closed spec fn view(&self) -> EnvView {
        EnvView {
            config: match self.config {
                Some(c) => Some(c@),
                None => None,
            },
            token_counter: self.token_counter,
            tokens: token_map(self.tokens@),
            holders: holder_map(self.holders@),
            timestamp: self.timestamp,
            sequence: self.sequence,
            events: Seq::new(self.events@.len(), |i: int| self.events@[i]@),
            authenticated: approved(self.all_approved, self.approvals@),
        }
    }
}

/// The index of the entry that counts for `token_id`, if there is one.
fn find_token(tokens: &Vec<TokenEntry>, token_id: u64) -> (found: Option<usize>)
    ensures
        match found {
            Some(i) => {
                &&& i < tokens.len()
                &&& tokens[i as int].token_id == token_id
                &&& forall|j: int| i < j < tokens.len() ==> tokens[j].token_id != token_id
                &&& token_map(tokens@).contains_key(token_id)
                &&& token_map(tokens@)[token_id] == tokens[i as int].data@
            },
            None => !token_map(tokens@).contains_key(token_id),
        },
{
    let ghost pairs = token_pairs(tokens@);
    let mut i: usize = tokens.len();
    assert(pairs.take(i as int) =~= pairs);
    while i > 0
        invariant
            i <= tokens.len(),
            pairs == token_pairs(tokens@),
            forall|j: int| i <= j < tokens.len() ==> tokens[j].token_id != token_id,
            assoc(pairs).contains_key(token_id) == assoc(pairs.take(i as int)).contains_key(
                token_id,
            ),
            assoc(pairs).contains_key(token_id) ==> assoc(pairs)[token_id] == assoc(
                pairs.take(i as int),
            )[token_id],
        decreases i,
    {
        i -= 1;
        proof {
            lemma_assoc_take(pairs, i as int);
        }
        if tokens[i].token_id == token_id {
            return Some(i);
        }
    }
    None
}

/// The index of the entry that counts for `holder`, if there is one.
fn find_holder(holders: &Vec<HolderEntry>, holder: &Address) -> (found: Option<usize>)
    ensures
        match found {
            Some(i) => {
                &&& i < holders.len()
                &&& holders[i as int].holder@ == holder@
                &&& forall|j: int| i < j < holders.len() ==> holders[j].holder@ != holder@
                &&& holder_map(holders@).contains_key(holder@)
                &&& holder_map(holders@)[holder@] == holders[i as int].state
            },
            None => !holder_map(holders@).contains_key(holder@),
        },
{
    let ghost pairs = holder_pairs(holders@);
    let mut i: usize = holders.len();
    assert(pairs.take(i as int) =~= pairs);
    while i > 0
        invariant
            i <= holders.len(),
            pairs == holder_pairs(holders@),
            forall|j: int| i <= j < holders.len() ==> holders[j].holder@ != holder@,
            assoc(pairs).contains_key(holder@) == assoc(pairs.take(i as int)).contains_key(
                holder@,
            ),
            assoc(pairs).contains_key(holder@) ==> assoc(pairs)[holder@] == assoc(
                pairs.take(i as int),
            )[holder@],
        decreases i,
    {
        i -= 1;
        proof {
            lemma_assoc_take(pairs, i as int);
        }
        if holders[i].holder.same(holder) {
            return Some(i);
        }
    }
    None
}

/// Writes the record of a token: over the entry that counts for it, or as a
/// new entry.
fn put_token(tokens: &mut Vec<TokenEntry>, token_id: u64, data: GithubData)
    ensures
        token_map(final(tokens)@) == token_map(old(tokens)@).insert(token_id, data@),
{
    let ghost before = token_pairs(tokens@);
    match find_token(tokens, token_id) {
        Some(i) => {
            tokens.set(i, TokenEntry { token_id, data });
            proof {
                lemma_assoc_update(before, i as int, token_id, data@);
                assert(token_pairs(tokens@) =~= before.update(i as int, (token_id, data@)));
            }
        },
        None => {
            tokens.push(TokenEntry { token_id, data });
            proof {
                lemma_assoc_push(before, token_id, data@);
                assert(token_pairs(tokens@) =~= before.push((token_id, data@)));
            }
        },
    }
}

/// Writes the state of a holder: over the entry that counts for the holder,
/// or as a new entry.
fn put_holder(holders: &mut Vec<HolderEntry>, holder: &Address, state: HolderState)
    ensures
        holder_map(final(holders)@) == holder_map(old(holders)@).insert(holder@, state),
{
    let ghost before = holder_pairs(holders@);
    match find_holder(holders, holder) {
        Some(i) => {
            holders.set(i, HolderEntry { holder: holder.clone(), state });
            proof {
                lemma_assoc_update(before, i as int, holder@, state);
                assert(holder_pairs(holders@) =~= before.update(i as int, (holder@, state)));
            }
        },
        None => {
            holders.push(HolderEntry { holder: holder.clone(), state });
            proof {
                lemma_assoc_push(before, holder@, state);
                assert(holder_pairs(holders@) =~= before.push((holder@, state)));
            }
        },
    }
}

impl Env {
    /// An environment in which nothing was written yet, at ledger 0 and
    /// time 0.
    pub fn new() -> (env: Env)
        ensures
            env@ == (EnvView {
                config: None,
                token_counter: None,
                tokens: Map::empty(),
                holders: Map::empty(),
                timestamp: 0,
                sequence: 0,
                events: Seq::empty(),
                authenticated: Set::empty(),
            }),
    {
        let env = Env {
            config: None,
            token_counter: None,
            tokens: Vec::new(),
            holders: Vec::new(),
            timestamp: 0,
            sequence: 0,
            events: Vec::new(),
            approvals: Vec::new(),
            all_approved: false,
        };
        assert(env@.events =~= Seq::empty());
        assert(env@.authenticated =~= Set::empty());
        env
    }

    /// Records that `who` has proved to the host that the call is theirs.
    pub fn authenticate(&mut self, who: &Address)
        ensures
            final(self)@ == (EnvView {
                authenticated: old(self)@.authenticated.insert(who@),
                ..old(self)@
            }),
    {
        self.approvals.push(who.clone());
        proof {
            let before = old(self).approvals@;
            let after = self.approvals@;
            assert(after[before.len() as int]@ == who@);
            assert forall|a: Seq<u8>|
                approved(self.all_approved, after).contains(a) == approved(
                    self.all_approved,
                    before,
                ).insert(who@).contains(a) by {
                if !self.all_approved {
                    if approved(false, before).insert(who@).contains(a) {
                        if a == who@ {
                            assert(after[before.len() as int]@ == a);
                        } else {
                            let i = choose|i: int| 0 <= i < before.len() && before[i]@ == a;
                            assert(after[i]@ == a);
                        }
                    }
                    if approved(false, after).contains(a) {
                        let i = choose|i: int| 0 <= i < after.len() && after[i]@ == a;
                        if i < before.len() {
                            assert(before[i]@ == a);
                        }
                    }
                }
            }
            assert(self@.authenticated =~= old(self)@.authenticated.insert(who@));
        }
    }

    /// Takes every caller as authenticated, as a host does under test.
    pub fn mock_all_auths(&mut self)
        ensures
            final(self)@ == (EnvView { authenticated: Set::full(), ..old(self)@ }),
    {
        self.all_approved = true;
    }

    /// Whether `who` is authenticated.
    pub fn is_authenticated(&self, who: &Address) -> (yes: bool)
        ensures
            yes == self@.authenticated.contains(who@),
    {
        if self.all_approved {
            return true;
        }
        let mut i: usize = 0;
        while i < self.approvals.len()
            invariant
                i <= self.approvals.len(),
                forall|j: int| 0 <= j < i ==> self.approvals@[j]@ != who@,
            decreases self.approvals.len() - i,
        {
            if self.approvals[i].same(who) {
                return true;
            }
            i += 1;
        }
        false
    }

    /// The time of the ledger.
    pub fn timestamp(&self) -> (t: u64)
        ensures
            t == self@.timestamp,
    {
        self.timestamp
    }

    /// The number of the ledger.
    pub fn sequence(&self) -> (n: u32)
        ensures
            n == self@.sequence,
    {
        self.sequence
    }

    /// Moves the ledger to the given number and time; nothing else changes.
    pub fn set_ledger(&mut self, sequence: u32, timestamp: u64)
        ensures
            final(self)@ == (EnvView { sequence, timestamp, ..old(self)@ }),
    {
        self.sequence = sequence;
        self.timestamp = timestamp;
    }

    /// Brings in a token counter that was stored elsewhere; nothing else
    /// changes.
    pub fn load_token_counter(&mut self, next_token_id: u64)
        ensures
            final(self)@ == (EnvView { token_counter: Some(next_token_id), ..old(self)@ }),
    {
        self.token_counter = Some(next_token_id);
    }

    /// Brings in a replay counter that was stored elsewhere and is still
    /// kept on the current ledger; the rest of the holder's state stays.
    pub fn load_nonce(&mut self, holder: &Address, nonce: u64)
        ensures
            final(self)@ == old(self)@.with_holder(
                holder@,
                HolderState {
                    nonce,
                    nonce_live_until: old(self)@.sequence as u64,
                    ..old(self)@.holder(holder@)
                },
            ),
            final(self)@.nonce(holder@) == nonce,
    {
        let state = holder_state(self, holder);
        let live_until: u64 = self.sequence as u64;
        put_holder(
            &mut self.holders,
            holder,
            HolderState { nonce, nonce_live_until: live_until, ..state },
        );
    }

    /// The number of notifications published so far.
    pub fn event_count(&self) -> (n: usize)
        ensures
            n == self@.events.len(),
    {
        self.events.len()
    }

    /// The notification at position `index`, counted from the oldest.
    pub fn event(&self, index: usize) -> (event: Option<Event>)
        ensures
            match event {
                Some(e) => index < self@.events.len() && e@ == self@.events[index as int],
                None => index >= self@.events.len(),
            },
    {
        if index < self.events.len() {
            Some(self.events[index].clone())
        } else {
            None
        }
    }

    /// Appends a notification to the log; nothing else changes.
    pub fn publish(&mut self, event: Event)
        ensures
            final(self)@ == (EnvView { events: old(self)@.events.push(event@), ..old(self)@ }),
    {
        self.events.push(event);
        assert(self@.events =~= old(self)@.events.push(event@));
    }
}

/// Stores the configuration, over an earlier one if there is one.
pub fn set_config(env: &mut Env, config: &Config)
    ensures
        final(env)@ == (EnvView { config: Some(config@), ..old(env)@ }),
{
    env.config = Some(config.clone());
}

/// The stored configuration; `NotInitialized` where none is stored.
pub fn get_config(env: &Env) -> (res: Result<Config, Error>)
    ensures
        match res {
            Ok(config) => env@.config == Some(config@),
            Err(e) => e == Error::NotInitialized && env@.config.is_none(),
        },
{
    match &env.config {
        Some(config) => Ok(config.clone()),
        None => Err(Error::NotInitialized),
    }
}

/// The administrator of the stored configuration.
pub fn get_admin(env: &Env) -> (res: Result<Address, Error>)
    ensures
        match res {
            Ok(admin) => env@.config.is_some() && admin@ == env@.config.unwrap().admin,
            Err(e) => e == Error::NotInitialized && env@.config.is_none(),
        },
{
    match &env.config {
        Some(config) => Ok(config.admin.clone()),
        None => Err(Error::NotInitialized),
    }
}

/// The access-control delegate of the stored configuration.
pub fn get_access_control(env: &Env) -> (res: Result<Address, Error>)
    ensures
        match res {
            Ok(delegate) => env@.config.is_some() && delegate@
                == env@.config.unwrap().access_control,
            Err(e) => e == Error::NotInitialized && env@.config.is_none(),
        },
{
    match &env.config {
        Some(config) => Ok(config.access_control.clone()),
        None => Err(Error::NotInitialized),
    }
}

/// The treasury of the stored configuration.
pub fn get_treasury(env: &Env) -> (res: Result<Address, Error>)
    ensures
        match res {
            Ok(treasury) => env@.config.is_some() && treasury@ == env@.config.unwrap().treasury,
            Err(e) => e == Error::NotInitialized && env@.config.is_none(),
        },
{
    match &env.config {
        Some(config) => Ok(config.treasury.clone()),
        None => Err(Error::NotInitialized),
    }
}

/// The fee for a mint: 0 where no configuration is stored.
pub fn get_mint_fee(env: &Env) -> (fee: i128)
    ensures
        fee == env@.mint_fee(),
{
    match &env.config {
        Some(config) => config.mint_fee,
        None => 0,
    }
}

/// The id that the next token gets.
pub fn get_next_token_id(env: &Env) -> (id: u64)
    ensures
        id == env@.next_token_id(),
{
    match env.token_counter {
        Some(n) => n,
        None => 1,
    }
}

/// Advances the token counter by one.
pub fn increment_token_counter(env: &mut Env)
    requires
        old(env)@.next_token_id() < u64::MAX,
    ensures
        final(env)@ == (EnvView {
            token_counter: Some((old(env)@.next_token_id() + 1) as u64),
            ..old(env)@
        }),
{
    let current = get_next_token_id(env);
    env.token_counter = Some(current + 1);
}

/// Stores the record of a token, over an earlier one if there is one.
pub fn set_token_data(env: &mut Env, token_id: u64, data: &GithubData)
    ensures
        final(env)@ == old(env)@.with_token(token_id, data@),
{
    put_token(&mut env.tokens, token_id, data.clone());
}

/// The record of a token; `TokenNotFound` where none is stored.
pub fn get_token_data(env: &Env, token_id: u64) -> (res: Result<GithubData, Error>)
    ensures
        match res {
            Ok(data) => env@.tokens.contains_key(token_id) && data@ == env@.tokens[token_id],
            Err(e) => e == Error::TokenNotFound && !env@.tokens.contains_key(token_id),
        },
{
    match find_token(&env.tokens, token_id) {
        Some(i) => Ok(env.tokens[i].data.clone()),
        None => Err(Error::TokenNotFound),
    }
}

/// Replaces the record of a token that has one; `TokenNotFound`, and nothing
/// written, where it has none.
pub fn update_token_data(env: &mut Env, token_id: u64, data: &GithubData) -> (res: Result<
    (),
    Error,
>)
    ensures
        match res {
            Ok(()) => {
                &&& old(env)@.tokens.contains_key(token_id)
                &&& final(env)@ == old(env)@.with_token(token_id, data@)
            },
            Err(e) => {
                &&& e == Error::TokenNotFound
                &&& !old(env)@.tokens.contains_key(token_id)
                &&& final(env)@ == old(env)@
            },
        },
{
    match find_token(&env.tokens, token_id) {
        Some(_) => {
            put_token(&mut env.tokens, token_id, data.clone());
            Ok(())
        },
        None => Err(Error::TokenNotFound),
    }
}

/// What is kept for `holder`.
fn holder_state(env: &Env, holder: &Address) -> (state: HolderState)
    ensures
        state == env@.holder(holder@),
{
    match find_holder(&env.holders, holder) {
        Some(i) => env.holders[i].state,
        None => HolderState { has_identity: false, token_id: None, nonce: 0, nonce_live_until: 0 },
    }
}

/// Binds a token to a holder; the rest of the holder's state stays.
pub fn set_holder_token(env: &mut Env, holder: &Address, token_id: u64)
    ensures
        final(env)@ == old(env)@.with_holder(
            holder@,
            HolderState { token_id: Some(token_id), ..old(env)@.holder(holder@) },
        ),
{
    let state = holder_state(env, holder);
    put_holder(&mut env.holders, holder, HolderState { token_id: Some(token_id), ..state });
}

/// The token of a holder; `NoIdentityFound` where the holder has none.
pub fn get_holder_token(env: &Env, holder: &Address) -> (res: Result<u64, Error>)
    ensures
        match res {
            Ok(token_id) => env@.holder_token(holder@) == Some(token_id),
            Err(e) => e == Error::NoIdentityFound && env@.holder_token(holder@).is_none(),
        },
{
    match holder_state(env, holder).token_id {
        Some(token_id) => Ok(token_id),
        None => Err(Error::NoIdentityFound),
    }
}

/// Sets the identity flag of a holder; the rest of the holder's state stays.
pub fn set_has_identity(env: &mut Env, holder: &Address, has: bool)
    ensures
        final(env)@ == old(env)@.with_holder(
            holder@,
            HolderState { has_identity: has, ..old(env)@.holder(holder@) },
        ),
{
    let state = holder_state(env, holder);
    put_holder(&mut env.holders, holder, HolderState { has_identity: has, ..state });
}

/// Whether a holder is flagged as having an identity.
pub fn has_identity(env: &Env, holder: &Address) -> (has: bool)
    ensures
        has == env@.has_identity(holder@),
{
    holder_state(env, holder).has_identity
}

/// The replay counter of a holder: 0 where none is stored or the stored one
/// has expired.
pub fn get_nonce(env: &Env, user: &Address) -> (nonce: u64)
    ensures
        nonce == env@.nonce(user@),
{
    let state = holder_state(env, user);
    if state.nonce_live_until >= env.sequence as u64 {
        state.nonce
    } else {
        0
    }
}

/// Advances the replay counter of a holder by one and lets the record live
/// for `THIRTY_DAYS_IN_LEDGERS` ledgers from the current one.
pub fn increment_nonce(env: &mut Env, user: &Address)
    requires
        old(env)@.nonce(user@) < u64::MAX,
    ensures
        final(env)@ == old(env)@.with_holder(
            user@,
            HolderState {
                nonce: (old(env)@.nonce(user@) + 1) as u64,
                nonce_live_until: (old(env)@.sequence + THIRTY_DAYS_IN_LEDGERS) as u64,
                ..old(env)@.holder(user@)
            },
        ),
{
    let current = get_nonce(env, user);
    let state = holder_state(env, user);
    let live_until: u64 = env.sequence as u64 + THIRTY_DAYS_IN_LEDGERS as u64;
    put_holder(
        &mut env.holders,
        user,
        HolderState { nonce: current + 1, nonce_live_until: live_until, ..state },
    );
}

} // verus!
