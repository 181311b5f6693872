//! A registry of non-transferable identity records: one record per holder,
//! classified into a tier by contribution count and rendered as a badge.
//!
//! The host authenticates callers. An operation that acts for a caller is
//! defined only where the environment holds that caller as authenticated.

use vstd::prelude::*;

pub mod laws;
pub mod storage;
pub mod types;

pub use storage::{Env, EnvView, Event, EventKind, EventView, HolderState};
pub use types::{Address, Config, ConfigView, Error, GithubData, GithubDataView, Tier};
use types::{badge_of, tier_of};
use storage::THIRTY_DAYS_IN_LEDGERS;

verus! {

/// The operations of the registry.
pub struct GithubIdentityContract;

/// Why a mint is refused, if it is: the first of the checks that fails.
pub open spec fn mint_refusal(env: EnvView, caller: Seq<u8>, username: Seq<char>, nonce: u64)
    -> Option<Error> {
    if username.len() == 0 {
        Some(Error::EmptyUsername)
    } else if env.has_identity(caller) {
        Some(Error::AlreadyHasIdentity)
    } else if nonce != env.nonce(caller) {
        Some(Error::InvalidNonce)
    } else if env.mint_fee() > 0 {
        Some(Error::InsufficientPayment)
    } else {
        None
    }
}

/// The environment after a mint that was not refused: the caller's nonce and
/// the token counter advanced by one, the new record stored under the id
/// that was next, the caller bound to it, and the mint notified.
pub open spec fn after_mint(
    env: EnvView,
    caller: Seq<u8>,
    username: Seq<char>,
    contributions: u32,
    proof_data: Seq<u8>,
) -> EnvView {
    let token_id = env.next_token_id();
    EnvView {
        token_counter: Some((token_id + 1) as u64),
        tokens: env.tokens.insert(
            token_id,
            GithubDataView {
                username,
                contributions,
                tier: tier_of(contributions),
                minted_at: env.timestamp,
                updated_at: env.timestamp,
                proof_data,
            },
        ),
        holders: env.holders.insert(
            caller,
            HolderState {
                has_identity: true,
                token_id: Some(token_id),
                nonce: (env.nonce(caller) + 1) as u64,
                nonce_live_until: (env.sequence + THIRTY_DAYS_IN_LEDGERS) as u64,
            },
        ),
        events: env.events.push(
            EventView {
                kind: EventKind::IdentityMinted,
                caller,
                token_id,
                username,
                contributions,
                tier: tier_of(contributions),
            },
        ),
        ..env
    }
}

/// What a mint returns: the refusal, or the id that was next.
pub open spec fn mint_result(env: EnvView, caller: Seq<u8>, username: Seq<char>, nonce: u64)
    -> Result<u64, Error> {
    match mint_refusal(env, caller, username, nonce) {
        Some(e) => Err(e),
        None => Ok(env.next_token_id()),
    }
}

/// The environment that a mint leaves: unchanged where the mint is refused.
pub open spec fn mint_state(
    env: EnvView,
    caller: Seq<u8>,
    username: Seq<char>,
    contributions: u32,
    proof_data: Seq<u8>,
    nonce: u64,
) -> EnvView {
    if mint_refusal(env, caller, username, nonce).is_none() {
        after_mint(env, caller, username, contributions, proof_data)
    } else {
        env
    }
}

/// Why an update is refused, if it is: the first of the checks that fails.
pub open spec fn update_refusal(env: EnvView, caller: Seq<u8>, token_id: u64) -> Option<Error> {
    match env.holder_token(caller) {
        None => Some(Error::NoIdentityFound),
        Some(own) => if own != token_id {
            Some(Error::Unauthorized)
        } else if !env.tokens.contains_key(token_id) {
            Some(Error::TokenNotFound)
        } else {
            None
        },
    }
}

/// The environment after an update that was not refused: the record holds
/// the new name, count and proof, the tier of the new count and the current
/// time as its time of update; its time of minting stays. The update is
/// notified.
pub open spec fn after_update(
    env: EnvView,
    caller: Seq<u8>,
    token_id: u64,
    username: Seq<char>,
    contributions: u32,
    proof_data: Seq<u8>,
) -> EnvView {
    EnvView {
        tokens: env.tokens.insert(
            token_id,
            GithubDataView {
                username,
                contributions,
                tier: tier_of(contributions),
                minted_at: env.tokens[token_id].minted_at,
                updated_at: env.timestamp,
                proof_data,
            },
        ),
        events: env.events.push(
            EventView {
                kind: EventKind::IdentityUpdated,
                caller,
                token_id,
                username,
                contributions,
                tier: tier_of(contributions),
            },
        ),
        ..env
    }
}

/// What an update returns: the refusal, or nothing.
pub open spec fn update_result(env: EnvView, caller: Seq<u8>, token_id: u64) -> Result<(), Error> {
    match update_refusal(env, caller, token_id) {
        Some(e) => Err(e),
        None => Ok(()),
    }
}

/// The environment that an update leaves: unchanged where the update is
/// refused.
pub open spec fn update_state(
    env: EnvView,
    caller: Seq<u8>,
    token_id: u64,
    username: Seq<char>,
    contributions: u32,
    proof_data: Seq<u8>,
) -> EnvView {
    if update_refusal(env, caller, token_id).is_none() {
        after_update(env, caller, token_id, username, contributions, proof_data)
    } else {
        env
    }
}

/// Why a change of the configuration is refused, if it is.
pub open spec fn admin_refusal(env: EnvView, caller: Seq<u8>) -> Option<Error> {
    match env.config {
        None => Some(Error::NotInitialized),
        Some(config) => if config.admin != caller {
            Some(Error::NotAdmin)
        } else {
            None
        },
    }
}

/// The tokens of a holder, as a list: the one token, or none.
pub open spec fn tokens_of(env: EnvView, holder: Seq<u8>) -> Seq<u64> {
    match env.holder_token(holder) {
        Some(token_id) => seq![token_id],
        None => Seq::empty(),
    }
}

impl GithubIdentityContract {
    /// Creates the configuration. Fails with `AlreadyInitialized`, and
    /// changes nothing, where there is one already.
    pub fn initialize(
        env: &mut Env,
        admin: Address,
        access_control: Address,
        treasury: Address,
        mint_fee: i128,
    ) -> (res: Result<(), Error>)
        ensures
            match res {
                Ok(()) => old(env)@.config.is_none() && final(env)@ == (EnvView {
                    config: Some(
                        ConfigView {
                            admin: admin@,
                            access_control: access_control@,
                            treasury: treasury@,
                            mint_fee,
                        },
                    ),
                    ..old(env)@
                }),
                Err(e) => {
                    &&& e == Error::AlreadyInitialized
                    &&& old(env)@.config.is_some()
                    &&& final(env)@ == old(env)@
                },
            },
            laws::consistent(old(env)@) ==> laws::consistent(final(env)@),
    {
        if storage::get_config(env).is_ok() {
            return Err(Error::AlreadyInitialized);
        }
        let config = Config { admin, access_control, treasury, mint_fee };
        storage::set_config(env, &config);
        proof {
            if laws::consistent(old(env)@) {
                laws::lemma_consistency_ignores_the_rest(old(env)@, env@);
            }
        }
        Ok(())
    }

    /// The checks of a mint, in their order: the name is not empty, the
    /// caller has no identity yet, the nonce is the caller's current one, and
    /// no fee is asked. Returns the first that fails.
    pub fn check_mint(env: &Env, caller: &Address, username: &String, nonce: u64) -> (refusal:
        Option<Error>)
        ensures
            refusal == mint_refusal(env@, caller@, username@, nonce),
    {
        if username.as_str().is_empty() {
            return Some(Error::EmptyUsername);
        }
        if storage::has_identity(env, caller) {
            return Some(Error::AlreadyHasIdentity);
        }
        let expected_nonce = storage::get_nonce(env, caller);
        if nonce != expected_nonce {
            return Some(Error::InvalidNonce);
        }
        let mint_fee = storage::get_mint_fee(env);
        if mint_fee > 0 {
            return Some(Error::InsufficientPayment);
        }
        None
    }

    /// Mints the identity of `caller`, who must be authenticated. The checks
    /// are made in the order of `mint_refusal`; a refused mint changes
    /// nothing. A mint that is not refused returns the id that was next and
    /// leaves the environment as `after_mint` says. Neither the signature
    /// nor the referrer is looked at. Where the mint is not refused, the
    /// token counter and the nonce must have room to advance.
    pub fn mint(
        env: &mut Env,
        caller: Address,
        _signature: [u8; 64],
        username: String,
        contributions: u32,
        proof_data: Vec<u8>,
        _referrer: Option<Address>,
        nonce: u64,
    ) -> (res: Result<u64, Error>)
        requires
            old(env)@.authenticated.contains(caller@),
            mint_refusal(old(env)@, caller@, username@, nonce).is_none() ==> {
                &&& old(env)@.next_token_id() < u64::MAX
                &&& nonce < u64::MAX
            },
        ensures
            res == mint_result(old(env)@, caller@, username@, nonce),
            final(env)@ == mint_state(
                old(env)@,
                caller@,
                username@,
                contributions,
                proof_data@,
                nonce,
            ),
            laws::consistent(old(env)@) ==> laws::consistent(final(env)@),
    {
        match Self::check_mint(env, &caller, &username, nonce) {
            Some(e) => {
                return Err(e);
            },
            None => {},
        }
        storage::increment_nonce(env, &caller);

        let token_id = storage::get_next_token_id(env);
        storage::increment_token_counter(env);

        let tier = Tier::from_contributions(contributions);
        let now = env.timestamp();
        let github_data = GithubData {
            username: username.clone(),
            contributions,
            tier,
            minted_at: now,
            updated_at: now,
            proof_data,
        };
        storage::set_token_data(env, token_id, &github_data);
        storage::set_holder_token(env, &caller, token_id);
        storage::set_has_identity(env, &caller, true);

        env.publish(
            Event {
                kind: EventKind::IdentityMinted,
                caller,
                token_id,
                username,
                contributions,
                tier,
            },
        );
        proof {
            let done = after_mint(old(env)@, caller@, username@, contributions, proof_data@);
            assert(env@.holders =~= done.holders);
            if laws::consistent(old(env)@) {
                laws::lemma_mint_keeps_consistent(
                    old(env)@,
                    caller@,
                    username@,
                    contributions,
                    proof_data@,
                    nonce,
                );
            }
        }
        Ok(token_id)
    }

    /// Replaces the name, the count and the proof of the token of `caller`,
    /// who must be authenticated, and with the count its tier. The checks
    /// are made in the order of `update_refusal`; a refused update changes
    /// nothing.
    pub fn update_token(
        env: &mut Env,
        caller: Address,
        token_id: u64,
        username: String,
        contributions: u32,
        proof_data: Vec<u8>,
    ) -> (res: Result<(), Error>)
        requires
            old(env)@.authenticated.contains(caller@),
        ensures
            res == update_result(old(env)@, caller@, token_id),
            final(env)@ == update_state(
                old(env)@,
                caller@,
                token_id,
                username@,
                contributions,
                proof_data@,
            ),
            laws::consistent(old(env)@) ==> laws::consistent(final(env)@),
    {
        let holder_token = match storage::get_holder_token(env, &caller) {
            Ok(own) => own,
            Err(e) => {
                return Err(e);
            },
        };
        if holder_token != token_id {
            return Err(Error::Unauthorized);
        }
        let tier = Tier::from_contributions(contributions);

        let mut data = match storage::get_token_data(env, token_id) {
            Ok(data) => data,
            Err(e) => {
                return Err(e);
            },
        };
        data.username = username.clone();
        data.contributions = contributions;
        data.tier = tier;
        data.updated_at = env.timestamp();
        data.proof_data = proof_data;

        match storage::update_token_data(env, token_id, &data) {
            Ok(()) => {},
            Err(e) => {
                return Err(e);
            },
        }
        env.publish(
            Event {
                kind: EventKind::IdentityUpdated,
                caller,
                token_id,
                username,
                contributions,
                tier,
            },
        );
        proof {
            if laws::consistent(old(env)@) {
                laws::lemma_update_keeps_consistent(
                    old(env)@,
                    caller@,
                    token_id,
                    username@,
                    contributions,
                    proof_data@,
                );
            }
        }
        Ok(())
    }

    /// The record of a token; `TokenNotFound` where there is none.
    pub fn get_token_data(env: &Env, token_id: u64) -> (res: Result<GithubData, Error>)
        ensures
            match res {
                Ok(data) => env@.tokens.contains_key(token_id) && data@ == env@.tokens[token_id],
                Err(e) => e == Error::TokenNotFound && !env@.tokens.contains_key(token_id),
            },
    {
        storage::get_token_data(env, token_id)
    }

    /// The token of a holder; `NoIdentityFound` where the holder has none.
    pub fn get_user_token(env: &Env, user: Address) -> (res: Result<u64, Error>)
        ensures
            match res {
                Ok(token_id) => env@.holder_token(user@) == Some(token_id),
                Err(e) => e == Error::NoIdentityFound && env@.holder_token(user@).is_none(),
            },
    {
        storage::get_holder_token(env, &user)
    }

    /// Whether a holder has an identity.
    pub fn has_identity(env: &Env, user: Address) -> (has: bool)
        ensures
            has == env@.has_identity(user@),
    {
        storage::has_identity(env, &user)
    }

    /// The nonce that the next mint of a holder must carry.
    pub fn get_nonce(env: &Env, user: Address) -> (nonce: u64)
        ensures
            nonce == env@.nonce(user@),
    {
        storage::get_nonce(env, &user)
    }

    /// The fee for a mint: 0 before the registry is initialized.
    pub fn get_mint_fee(env: &Env) -> (fee: i128)
        ensures
            fee == env@.mint_fee(),
    {
        storage::get_mint_fee(env)
    }

    /// The badge of a token: that of the tier of its record. `TokenNotFound`
    /// where there is no record.
    pub fn get_token_svg(env: &Env, token_id: u64) -> (res: Result<String, Error>)
        ensures
            match res {
                Ok(svg) => env@.tokens.contains_key(token_id) && svg@ == badge_of(
                    env@.tokens[token_id].tier,
                ),
                Err(e) => e == Error::TokenNotFound && !env@.tokens.contains_key(token_id),
            },
    {
        match storage::get_token_data(env, token_id) {
            Ok(data) => Ok(types::generate_svg(&data)),
            Err(e) => Err(e),
        }
    }

    /// The tokens of a holder: the one token, or none.
    pub fn list_tokens_of_user(env: &Env, user: Address) -> (tokens: Vec<u64>)
        ensures
            tokens@ == tokens_of(env@, user@),
    {
        let mut tokens: Vec<u64> = Vec::new();
        match storage::get_holder_token(env, &user) {
            Ok(token_id) => {
                tokens.push(token_id);
                assert(tokens@ =~= seq![token_id]);
            },
            Err(_) => {},
        }
        tokens
    }

    /// Sets the fee for a mint. The caller must be authenticated, and only
    /// the administrator may: `NotInitialized` without a configuration,
    /// `NotAdmin` for any other caller, and nothing changes.
    pub fn set_mint_fee(env: &mut Env, admin: Address, new_fee: i128) -> (res: Result<(), Error>)
        requires
            old(env)@.authenticated.contains(admin@),
        ensures
            match res {
                Ok(()) => admin_refusal(old(env)@, admin@).is_none() && final(env)@ == (EnvView {
                    config: Some(ConfigView { mint_fee: new_fee, ..old(env)@.config.unwrap() }),
                    ..old(env)@
                }),
                Err(e) => admin_refusal(old(env)@, admin@) == Some(e) && final(env)@ == old(env)@,
            },
            laws::consistent(old(env)@) ==> laws::consistent(final(env)@),
    {
        match Self::assert_admin(env, &admin) {
            Ok(()) => {},
            Err(e) => {
                return Err(e);
            },
        }
        let mut config = match storage::get_config(env) {
            Ok(config) => config,
            Err(e) => {
                return Err(e);
            },
        };
        config.mint_fee = new_fee;
        storage::set_config(env, &config);
        proof {
            if laws::consistent(old(env)@) {
                laws::lemma_consistency_ignores_the_rest(old(env)@, env@);
            }
        }
        Ok(())
    }

    /// Sets the access-control delegate. The caller must be authenticated,
    /// and only the administrator may: `NotInitialized` without a
    /// configuration, `NotAdmin` for any other caller, and nothing changes.
    pub fn set_access_control(env: &mut Env, admin: Address, access_control: Address) -> (res:
        Result<(), Error>)
        requires
            old(env)@.authenticated.contains(admin@),
        ensures
            match res {
                Ok(()) => admin_refusal(old(env)@, admin@).is_none() && final(env)@ == (EnvView {
                    config: Some(
                        ConfigView {
                            access_control: access_control@,
                            ..old(env)@.config.unwrap()
                        },
                    ),
                    ..old(env)@
                }),
                Err(e) => admin_refusal(old(env)@, admin@) == Some(e) && final(env)@ == old(env)@,
            },
            laws::consistent(old(env)@) ==> laws::consistent(final(env)@),
    {
        match Self::assert_admin(env, &admin) {
            Ok(()) => {},
            Err(e) => {
                return Err(e);
            },
        }
        let mut config = match storage::get_config(env) {
            Ok(config) => config,
            Err(e) => {
                return Err(e);
            },
        };
        config.access_control = access_control;
        storage::set_config(env, &config);
        proof {
            if laws::consistent(old(env)@) {
                laws::lemma_consistency_ignores_the_rest(old(env)@, env@);
            }
        }
        Ok(())
    }

    /// Sets the treasury. The caller must be authenticated, and only the
    /// administrator may: `NotInitialized` without a configuration,
    /// `NotAdmin` for any other caller, and nothing changes.
    pub fn set_treasury(env: &mut Env, admin: Address, treasury: Address) -> (res: Result<
        (),
        Error,
    >)
        requires
            old(env)@.authenticated.contains(admin@),
        ensures
            match res {
                Ok(()) => admin_refusal(old(env)@, admin@).is_none() && final(env)@ == (EnvView {
                    config: Some(ConfigView { treasury: treasury@, ..old(env)@.config.unwrap() }),
                    ..old(env)@
                }),
                Err(e) => admin_refusal(old(env)@, admin@) == Some(e) && final(env)@ == old(env)@,
            },
            laws::consistent(old(env)@) ==> laws::consistent(final(env)@),
    {
        match Self::assert_admin(env, &admin) {
            Ok(()) => {},
            Err(e) => {
                return Err(e);
            },
        }
        let mut config = match storage::get_config(env) {
            Ok(config) => config,
            Err(e) => {
                return Err(e);
            },
        };
        config.treasury = treasury;
        storage::set_config(env, &config);
        proof {
            if laws::consistent(old(env)@) {
                laws::lemma_consistency_ignores_the_rest(old(env)@, env@);
            }
        }
        Ok(())
    }

    /// Whether `caller` is the administrator of the stored configuration.
    fn assert_admin(env: &Env, caller: &Address) -> (res: Result<(), Error>)
        ensures
            match res {
                Ok(()) => admin_refusal(env@, caller@).is_none(),
                Err(e) => admin_refusal(env@, caller@) == Some(e),
            },
    {
        let stored_admin = match storage::get_admin(env) {
            Ok(admin) => admin,
            Err(e) => {
                return Err(e);
            },
        };
        if !caller.same(&stored_admin) {
            return Err(Error::NotAdmin);
        }
        Ok(())
    }
}

} // verus!
