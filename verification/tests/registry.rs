use github_identity::storage;
use github_identity::types::generate_svg;
use github_identity::{
    Address, Config, Env, Error, EventKind, GithubData, GithubIdentityContract, Tier,
};

fn holder(n: u8) -> Address {
    Address::from_bytes(vec![n, n, n, n])
}

fn fresh() -> Env {
    let mut env = Env::new();
    env.mock_all_auths();
    env
}

fn started(fee: i128) -> Env {
    let mut env = fresh();
    assert_eq!(
        GithubIdentityContract::initialize(&mut env, holder(1), holder(2), holder(3), fee),
        Ok(())
    );
    env
}

fn mint(env: &mut Env, who: &Address, name: &str, count: u32, nonce: u64) -> Result<u64, Error> {
    GithubIdentityContract::mint(
        env,
        who.clone(),
        [7u8; 64],
        String::from(name),
        count,
        vec![1, 2, 3],
        None,
        nonce,
    )
}

fn record(name: &str, count: u32) -> GithubData {
    GithubData {
        username: String::from(name),
        contributions: count,
        tier: Tier::from_contributions(count),
        minted_at: 5,
        updated_at: 6,
        proof_data: vec![9],
    }
}

#[test]
fn tier_never_falls_as_contributions_rise() {
    let counts: [u32; 12] = [0, 1, 199, 200, 201, 999, 1000, 2999, 3000, 4999, 5000, u32::MAX];
    for pair in counts.windows(2) {
        let low = Tier::from_contributions(pair[0]).to_number();
        let high = Tier::from_contributions(pair[1]).to_number();
        assert!(low <= high);
    }
}

#[test]
fn tier_names_and_colors() {
    assert_eq!(Tier::Novice.to_string(), "Novice");
    assert_eq!(Tier::Pro.to_string(), "Pro");
    assert_eq!(Tier::Architect.to_string(), "Architect");
    assert_eq!(Tier::Legend.to_string(), "Legend");
    assert_eq!(Tier::Singularity.to_string(), "Singularity");
    assert_eq!(Tier::Novice.to_color(), "#CD7F32");
    assert_eq!(Tier::Pro.to_color(), "#C0C0C0");
    assert_eq!(Tier::Architect.to_color(), "#FFD700");
    assert_eq!(Tier::Legend.to_color(), "#E5E4E2");
    assert_eq!(Tier::Singularity.to_color(), "#39FF14");
}

#[test]
fn error_codes() {
    assert_eq!(Error::AlreadyHasIdentity.code(), 1);
    assert_eq!(Error::NoIdentityFound.code(), 2);
    assert_eq!(Error::InvalidTier.code(), 3);
    assert_eq!(Error::InvalidNonce.code(), 4);
    assert_eq!(Error::InvalidSignature.code(), 5);
    assert_eq!(Error::InsufficientPayment.code(), 6);
    assert_eq!(Error::TransferNotAllowed.code(), 7);
    assert_eq!(Error::EmptyUsername.code(), 8);
    assert_eq!(Error::NotInitialized.code(), 9);
    assert_eq!(Error::NotAdmin.code(), 10);
    assert_eq!(Error::TokenNotFound.code(), 11);
    assert_eq!(Error::AccessControlError.code(), 12);
    assert_eq!(Error::Unauthorized.code(), 13);
    assert_eq!(Error::AlreadyInitialized.code(), 14);
}

#[test]
fn badge_depends_on_tier_alone() {
    let a = record("one", 1500);
    let mut b = record("another", 2999);
    b.proof_data = vec![];
    b.minted_at = 77;
    assert_eq!(generate_svg(&a), generate_svg(&b));
    assert_eq!(
        generate_svg(&a),
        "<svg xmlns='http://www.w3.org/2000/svg' width='350' height='200'><rect width='100%' height='100%' fill='#ffd700'/><text x='50%' y='100' font-size='24' fill='#181c2f' text-anchor='middle'>Architect</text></svg>"
    );
    assert_eq!(
        generate_svg(&record("n", 0)),
        "<svg xmlns='http://www.w3.org/2000/svg' width='350' height='200'><rect width='100%' height='100%' fill='#b0c4de'/><text x='50%' y='100' font-size='24' fill='#181c2f' text-anchor='middle'>Novice</text></svg>"
    );
    assert_eq!(
        generate_svg(&record("s", 5000)),
        "<svg xmlns='http://www.w3.org/2000/svg' width='350' height='200'><rect width='100%' height='100%' fill='#8a2be2'/><text x='50%' y='100' font-size='24' fill='#fff' text-anchor='middle'>Singularity</text></svg>"
    );
}

#[test]
fn addresses_compare_by_bytes() {
    let a = Address::from_bytes(vec![1, 2, 3]);
    let b = Address::from_bytes(vec![1, 2, 3]);
    let c = Address::from_bytes(vec![1, 2, 4]);
    let d = Address::from_bytes(vec![1, 2]);
    assert!(a.same(&b));
    assert!(!a.same(&c));
    assert!(!a.same(&d));
    assert!(a.clone().same(&a));
    assert_eq!(a.as_bytes(), &vec![1u8, 2, 3]);
}

#[test]
fn second_mint_is_refused_and_changes_nothing() {
    let mut env = started(0);
    let h = holder(10);
    assert_eq!(mint(&mut env, &h, "alice", 1500, 0), Ok(1));
    let after_first = env.clone();
    let record_before = GithubIdentityContract::get_token_data(&env, 1).unwrap();
    let events_before = env.event_count();

    assert_eq!(mint(&mut env, &h, "alice2", 10, 1), Err(Error::AlreadyHasIdentity));
    assert_eq!(mint(&mut env, &h, "alice2", 10, 0), Err(Error::AlreadyHasIdentity));
    assert_eq!(env, after_first);

    assert_eq!(GithubIdentityContract::get_token_data(&env, 1).unwrap(), record_before);
    assert_eq!(GithubIdentityContract::get_nonce(&env, h.clone()), 1);
    assert_eq!(GithubIdentityContract::get_user_token(&env, h.clone()), Ok(1));
    assert_eq!(storage::get_next_token_id(&env), 2);
    assert_eq!(env.event_count(), events_before);
    assert_eq!(GithubIdentityContract::get_token_data(&env, 2), Err(Error::TokenNotFound));
}

#[test]
fn empty_username_is_checked_first() {
    let mut env = started(5);
    let h = holder(10);
    assert_eq!(mint(&mut env, &h, "", 1500, 42), Err(Error::EmptyUsername));
    let mut free = started(0);
    assert_eq!(mint(&mut free, &h, "alice", 1, 0), Ok(1));
    assert_eq!(mint(&mut free, &h, "", 1, 1), Err(Error::EmptyUsername));
}

#[test]
fn wrong_nonce_advances_nothing() {
    let mut env = started(0);
    let h = holder(10);
    let before = env.clone();
    assert_eq!(mint(&mut env, &h, "alice", 1500, 1), Err(Error::InvalidNonce));
    assert_eq!(env, before);
    assert_eq!(GithubIdentityContract::get_nonce(&env, h.clone()), 0);
    assert_eq!(storage::get_next_token_id(&env), 1);
    assert!(!GithubIdentityContract::has_identity(&env, h.clone()));
    assert_eq!(env.event_count(), 0);
    assert_eq!(mint(&mut env, &h, "alice", 1500, 0), Ok(1));
}

#[test]
fn failed_attempts_do_not_use_up_ids() {
    let mut env = started(0);
    assert_eq!(mint(&mut env, &holder(10), "a", 1, 0), Ok(1));
    assert_eq!(mint(&mut env, &holder(11), "", 1, 0), Err(Error::EmptyUsername));
    assert_eq!(mint(&mut env, &holder(11), "b", 1, 3), Err(Error::InvalidNonce));
    assert_eq!(mint(&mut env, &holder(10), "a", 1, 1), Err(Error::AlreadyHasIdentity));
    assert_eq!(mint(&mut env, &holder(11), "b", 1, 0), Ok(2));
    assert_eq!(mint(&mut env, &holder(12), "c", 1, 0), Ok(3));
    assert_eq!(mint(&mut env, &holder(13), "d", 1, 0), Ok(4));
}

#[test]
fn update_by_another_holder_leaves_the_record() {
    let mut env = started(0);
    let owner = holder(10);
    let other = holder(11);
    assert_eq!(mint(&mut env, &owner, "owner", 1500, 0), Ok(1));
    assert_eq!(mint(&mut env, &other, "other", 200, 0), Ok(2));
    let before = GithubIdentityContract::get_token_data(&env, 1).unwrap();
    let events_before = env.event_count();
    let whole = env.clone();

    let res = GithubIdentityContract::update_token(
        &mut env,
        other.clone(),
        1,
        String::from("taken"),
        9999,
        vec![],
    );
    assert_eq!(res, Err(Error::Unauthorized));
    assert_eq!(env, whole);
    assert_eq!(GithubIdentityContract::get_token_data(&env, 1).unwrap(), before);
    assert_eq!(env.event_count(), events_before);
}

#[test]
fn update_keeps_mint_time_and_sets_update_time() {
    let mut env = started(0);
    env.set_ledger(3, 1000);
    let h = holder(10);
    assert_eq!(mint(&mut env, &h, "alice", 1500, 0), Ok(1));
    let minted = GithubIdentityContract::get_token_data(&env, 1).unwrap();
    assert_eq!(minted.minted_at, 1000);
    assert_eq!(minted.updated_at, 1000);
    assert_eq!(minted.proof_data, vec![1, 2, 3]);
    assert_eq!(minted.tier, Tier::Architect);

    env.set_ledger(4, 2000);
    let res = GithubIdentityContract::update_token(
        &mut env,
        h.clone(),
        1,
        String::from("alice_b"),
        3500,
        vec![4],
    );
    assert_eq!(res, Ok(()));
    let updated = GithubIdentityContract::get_token_data(&env, 1).unwrap();
    assert_eq!(updated.username, "alice_b");
    assert_eq!(updated.contributions, 3500);
    assert_eq!(updated.tier, Tier::Legend);
    assert_eq!(updated.minted_at, 1000);
    assert_eq!(updated.updated_at, 2000);
    assert_eq!(updated.proof_data, vec![4]);
    assert_eq!(GithubIdentityContract::get_nonce(&env, h.clone()), 1);
    assert_eq!(GithubIdentityContract::get_user_token(&env, h), Ok(1));
}

#[test]
fn update_of_a_token_without_record() {
    let mut env = started(0);
    let h = holder(10);
    storage::set_holder_token(&mut env, &h, 7);
    let res =
        GithubIdentityContract::update_token(&mut env, h.clone(), 7, String::from("x"), 1, vec![]);
    assert_eq!(res, Err(Error::TokenNotFound));
    let res =
        GithubIdentityContract::update_token(&mut env, h.clone(), 8, String::from("x"), 1, vec![]);
    assert_eq!(res, Err(Error::Unauthorized));
    assert_eq!(
        GithubIdentityContract::update_token(&mut env, holder(11), 7, String::from("x"), 1, vec![]),
        Err(Error::NoIdentityFound)
    );
}

#[test]
fn fee_blocks_minting() {
    let mut env = fresh();
    assert_eq!(GithubIdentityContract::get_mint_fee(&env), 0);
    assert_eq!(
        GithubIdentityContract::initialize(&mut env, holder(1), holder(2), holder(3), 0),
        Ok(())
    );
    assert_eq!(mint(&mut env, &holder(10), "alice", 10, 0), Ok(1));
    assert_eq!(GithubIdentityContract::set_mint_fee(&mut env, holder(1), 1), Ok(()));
    assert_eq!(GithubIdentityContract::get_mint_fee(&env), 1);
    assert_eq!(mint(&mut env, &holder(11), "bob", 10, 0), Err(Error::InsufficientPayment));
    assert_eq!(GithubIdentityContract::get_nonce(&env, holder(11)), 0);
    assert_eq!(storage::get_next_token_id(&env), 2);
    assert_eq!(GithubIdentityContract::set_mint_fee(&mut env, holder(1), -4), Ok(()));
    assert_eq!(mint(&mut env, &holder(11), "bob", 10, 0), Ok(2));
}

#[test]
fn minting_before_initialization_asks_no_fee() {
    let mut env = fresh();
    assert_eq!(mint(&mut env, &holder(10), "alice", 10, 0), Ok(1));
}

#[test]
fn end_to_end() {
    let mut env = fresh();
    let a = holder(1);
    let b = holder(2);
    let c = holder(3);
    let h = holder(9);
    assert_eq!(
        GithubIdentityContract::initialize(&mut env, a.clone(), b.clone(), c.clone(), 0),
        Ok(())
    );
    assert_eq!(mint(&mut env, &h, "alice", 1500, 0), Ok(1));
    assert_eq!(GithubIdentityContract::get_token_data(&env, 1).unwrap().tier, Tier::Architect);
    assert_eq!(GithubIdentityContract::get_nonce(&env, h.clone()), 1);
    assert_eq!(
        GithubIdentityContract::get_token_svg(&env, 1).unwrap(),
        "<svg xmlns='http://www.w3.org/2000/svg' width='350' height='200'><rect width='100%' height='100%' fill='#ffd700'/><text x='50%' y='100' font-size='24' fill='#181c2f' text-anchor='middle'>Architect</text></svg>"
    );
    assert_eq!(GithubIdentityContract::list_tokens_of_user(&env, h.clone()), vec![1u64]);
    assert_eq!(GithubIdentityContract::list_tokens_of_user(&env, a.clone()), Vec::<u64>::new());
}

#[test]
fn events_are_logged_in_order() {
    let mut env = started(0);
    let h = holder(10);
    assert_eq!(env.event_count(), 0);
    assert_eq!(env.event(0), None);
    assert_eq!(mint(&mut env, &h, "alice", 250, 0), Ok(1));
    assert_eq!(
        GithubIdentityContract::update_token(
            &mut env,
            h.clone(),
            1,
            String::from("alice2"),
            5000,
            vec![]
        ),
        Ok(())
    );
    assert_eq!(env.event_count(), 2);
    let first = env.event(0).unwrap();
    assert_eq!(first.kind, EventKind::IdentityMinted);
    assert_eq!(first.kind.to_topic(), "identity_minted");
    assert!(first.caller.same(&h));
    assert_eq!(first.token_id, 1);
    assert_eq!(first.username, "alice");
    assert_eq!(first.contributions, 250);
    assert_eq!(first.tier, Tier::Pro);
    let second = env.event(1).unwrap();
    assert_eq!(second.kind, EventKind::IdentityUpdated);
    assert_eq!(second.kind.to_topic(), "identity_updated");
    assert_eq!(second.username, "alice2");
    assert_eq!(second.contributions, 5000);
    assert_eq!(second.tier, Tier::Singularity);
    assert_eq!(env.event(2), None);
}

#[test]
fn nonce_record_expires() {
    let mut env = started(0);
    env.set_ledger(100, 1);
    let h = holder(10);
    assert_eq!(mint(&mut env, &h, "alice", 250, 0), Ok(1));
    assert_eq!(storage::get_nonce(&env, &h), 1);
    env.set_ledger(100 + storage::THIRTY_DAYS_IN_LEDGERS, 2);
    assert_eq!(storage::get_nonce(&env, &h), 1);
    env.set_ledger(100 + storage::THIRTY_DAYS_IN_LEDGERS + 1, 3);
    assert_eq!(storage::get_nonce(&env, &h), 0);
    assert!(storage::has_identity(&env, &h));
    assert_eq!(storage::get_holder_token(&env, &h), Ok(1));
}

#[test]
fn nonce_counts_up_and_is_refreshed() {
    let mut env = fresh();
    let h = holder(10);
    assert_eq!(storage::get_nonce(&env, &h), 0);
    storage::increment_nonce(&mut env, &h);
    storage::increment_nonce(&mut env, &h);
    assert_eq!(storage::get_nonce(&env, &h), 2);
    assert_eq!(storage::get_nonce(&env, &holder(11)), 0);
    env.set_ledger(storage::THIRTY_DAYS_IN_LEDGERS, 0);
    storage::increment_nonce(&mut env, &h);
    assert_eq!(storage::get_nonce(&env, &h), 3);
    env.set_ledger(2 * storage::THIRTY_DAYS_IN_LEDGERS, 0);
    assert_eq!(storage::get_nonce(&env, &h), 3);
    env.set_ledger(2 * storage::THIRTY_DAYS_IN_LEDGERS + 1, 0);
    assert_eq!(storage::get_nonce(&env, &h), 0);
    storage::increment_nonce(&mut env, &h);
    assert_eq!(storage::get_nonce(&env, &h), 1);
}

#[test]
fn loaded_values_are_read_back() {
    let mut env = fresh();
    env.set_ledger(9, 90);
    assert_eq!(env.sequence(), 9);
    assert_eq!(env.timestamp(), 90);
    let h = holder(10);
    env.load_nonce(&h, 41);
    env.load_token_counter(17);
    assert_eq!(storage::get_nonce(&env, &h), 41);
    assert_eq!(storage::get_next_token_id(&env), 17);
    assert_eq!(mint(&mut env, &h, "alice", 1, 41), Ok(17));
    assert_eq!(storage::get_nonce(&env, &h), 42);
    assert_eq!(storage::get_next_token_id(&env), 18);
}

#[test]
fn config_accessors() {
    let mut env = fresh();
    assert_eq!(storage::get_config(&env), Err(Error::NotInitialized));
    assert_eq!(storage::get_admin(&env), Err(Error::NotInitialized));
    assert_eq!(storage::get_access_control(&env), Err(Error::NotInitialized));
    assert_eq!(storage::get_treasury(&env), Err(Error::NotInitialized));
    assert_eq!(storage::get_mint_fee(&env), 0);
    assert_eq!(
        GithubIdentityContract::set_mint_fee(&mut env, holder(1), 3),
        Err(Error::NotInitialized)
    );
    assert_eq!(
        GithubIdentityContract::set_access_control(&mut env, holder(1), holder(5)),
        Err(Error::NotInitialized)
    );
    assert_eq!(
        GithubIdentityContract::set_treasury(&mut env, holder(1), holder(5)),
        Err(Error::NotInitialized)
    );

    let config = Config {
        admin: holder(1),
        access_control: holder(2),
        treasury: holder(3),
        mint_fee: 12,
    };
    storage::set_config(&mut env, &config);
    assert_eq!(storage::get_config(&env), Ok(config.clone()));
    assert_eq!(storage::get_admin(&env), Ok(holder(1)));
    assert_eq!(storage::get_access_control(&env), Ok(holder(2)));
    assert_eq!(storage::get_treasury(&env), Ok(holder(3)));
    assert_eq!(storage::get_mint_fee(&env), 12);
}

#[test]
fn admin_changes_touch_one_field() {
    let mut env = started(4);
    assert_eq!(
        GithubIdentityContract::set_access_control(&mut env, holder(1), holder(20)),
        Ok(())
    );
    assert_eq!(
        storage::get_config(&env),
        Ok(Config { admin: holder(1), access_control: holder(20), treasury: holder(3), mint_fee: 4 })
    );
    assert_eq!(GithubIdentityContract::set_treasury(&mut env, holder(1), holder(30)), Ok(()));
    assert_eq!(
        storage::get_config(&env),
        Ok(Config {
            admin: holder(1),
            access_control: holder(20),
            treasury: holder(30),
            mint_fee: 4
        })
    );
    assert_eq!(GithubIdentityContract::set_mint_fee(&mut env, holder(1), 0), Ok(()));
    assert_eq!(
        storage::get_config(&env),
        Ok(Config {
            admin: holder(1),
            access_control: holder(20),
            treasury: holder(30),
            mint_fee: 0
        })
    );
    assert_eq!(
        GithubIdentityContract::set_treasury(&mut env, holder(2), holder(31)),
        Err(Error::NotAdmin)
    );
    assert_eq!(storage::get_treasury(&env), Ok(holder(30)));
    assert_eq!(
        GithubIdentityContract::initialize(&mut env, holder(9), holder(9), holder(9), 9),
        Err(Error::AlreadyInitialized)
    );
    assert_eq!(storage::get_admin(&env), Ok(holder(1)));
}

#[test]
fn token_records_are_stored_by_id() {
    let mut env = fresh();
    assert_eq!(storage::get_token_data(&env, 1), Err(Error::TokenNotFound));
    assert_eq!(storage::update_token_data(&mut env, 1, &record("a", 1)), Err(Error::TokenNotFound));
    assert_eq!(storage::get_token_data(&env, 1), Err(Error::TokenNotFound));
    storage::set_token_data(&mut env, 1, &record("a", 1));
    storage::set_token_data(&mut env, 2, &record("b", 300));
    assert_eq!(storage::get_token_data(&env, 1), Ok(record("a", 1)));
    assert_eq!(storage::get_token_data(&env, 2), Ok(record("b", 300)));
    assert_eq!(storage::update_token_data(&mut env, 1, &record("c", 5000)), Ok(()));
    assert_eq!(storage::get_token_data(&env, 1), Ok(record("c", 5000)));
    assert_eq!(storage::get_token_data(&env, 2), Ok(record("b", 300)));
    storage::set_token_data(&mut env, 2, &record("d", 4));
    assert_eq!(storage::get_token_data(&env, 2), Ok(record("d", 4)));
    assert_eq!(storage::get_token_data(&env, 1), Ok(record("c", 5000)));
    assert_eq!(storage::get_token_data(&env, 3), Err(Error::TokenNotFound));
}

#[test]
fn holder_records_are_stored_by_holder() {
    let mut env = fresh();
    let a = holder(10);
    let b = holder(11);
    assert_eq!(storage::get_holder_token(&env, &a), Err(Error::NoIdentityFound));
    assert!(!storage::has_identity(&env, &a));
    storage::set_holder_token(&mut env, &a, 5);
    assert_eq!(storage::get_holder_token(&env, &a), Ok(5));
    assert!(!storage::has_identity(&env, &a));
    assert_eq!(storage::get_holder_token(&env, &b), Err(Error::NoIdentityFound));
    storage::set_has_identity(&mut env, &a, true);
    storage::set_has_identity(&mut env, &b, true);
    assert!(storage::has_identity(&env, &a));
    assert!(storage::has_identity(&env, &b));
    assert_eq!(storage::get_holder_token(&env, &a), Ok(5));
    assert_eq!(storage::get_holder_token(&env, &b), Err(Error::NoIdentityFound));
    storage::set_has_identity(&mut env, &a, false);
    assert!(!storage::has_identity(&env, &a));
    assert!(storage::has_identity(&env, &b));
    storage::set_holder_token(&mut env, &a, 6);
    assert_eq!(storage::get_holder_token(&env, &a), Ok(6));
}

#[test]
fn token_counter_starts_at_one() {
    let mut env = fresh();
    assert_eq!(storage::get_next_token_id(&env), 1);
    storage::increment_token_counter(&mut env);
    assert_eq!(storage::get_next_token_id(&env), 2);
    storage::increment_token_counter(&mut env);
    assert_eq!(storage::get_next_token_id(&env), 3);
}

#[test]
fn callers_are_authenticated_one_by_one() {
    let mut env = Env::new();
    let a = holder(10);
    let b = holder(11);
    assert!(!env.is_authenticated(&a));
    env.authenticate(&a);
    assert!(env.is_authenticated(&a));
    assert!(!env.is_authenticated(&b));
    assert_eq!(mint(&mut env, &a, "alice", 1, 0), Ok(1));
    env.authenticate(&b);
    assert!(env.is_authenticated(&a));
    assert!(env.is_authenticated(&b));
    let mut open = Env::new();
    open.mock_all_auths();
    assert!(open.is_authenticated(&a));
    assert!(open.is_authenticated(&b));
}
