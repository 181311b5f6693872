//! What holds of the registry over any run of its operations.

use vstd::prelude::*;
use crate::storage::{EnvView, HolderState};
use crate::types::{tier_of, Error};
use crate::{
    after_mint, after_update, mint_refusal, mint_result, mint_state, update_refusal,
    update_result, update_state,
};

verus! {

/// The shape that the operations of the registry keep: a holder is flagged
/// exactly when bound to a token; a bound token has a record and an id that
/// was handed out; no two holders share a token; and the tier of every
/// record is that of its contribution count.
pub open spec fn consistent(env: EnvView) -> bool {
    &&& env.next_token_id() >= 1
    &&& forall|h: Seq<u8>|
        (#[trigger] env.holder(h)).has_identity <==> env.holder(h).token_id.is_some()
    &&& forall|h: Seq<u8>|
        (#[trigger] env.holder(h)).token_id.is_some() ==> env.tokens.contains_key(
            env.holder(h).token_id.unwrap(),
        )
    &&& forall|h1: Seq<u8>, h2: Seq<u8>|
        (#[trigger] env.holder(h1)).token_id.is_some() && env.holder(h1).token_id == (
        #[trigger] env.holder(h2)).token_id ==> h1 == h2
    &&& forall|t: u64| #[trigger]
        env.tokens.contains_key(t) ==> 1 <= t < env.next_token_id() && env.tokens[t].tier
            == tier_of(env.tokens[t].contributions)
}

/// Consistency rests on the holders, the records and the counter alone: a
/// change of the configuration, the ledger or the event log keeps it.
pub proof fn lemma_consistency_ignores_the_rest(env: EnvView, other: EnvView)
    requires
        consistent(env),
        other.holders == env.holders,
        other.tokens == env.tokens,
        other.token_counter == env.token_counter,
    ensures
        consistent(other),
{
    assert forall|h: Seq<u8>| #[trigger] other.holder(h) == env.holder(h) by {}
}

/// A mint that is not refused keeps the registry consistent.
pub proof fn lemma_mint_keeps_consistent(
    env: EnvView,
    caller: Seq<u8>,
    username: Seq<char>,
    contributions: u32,
    proof_data: Seq<u8>,
    nonce: u64,
)
    requires
        consistent(env),
        mint_refusal(env, caller, username, nonce).is_none(),
        env.next_token_id() < u64::MAX,
    ensures
        consistent(after_mint(env, caller, username, contributions, proof_data)),
{
    let done = after_mint(env, caller, username, contributions, proof_data);
    assert forall|h: Seq<u8>| h != caller implies #[trigger] done.holder(h) == env.holder(h) by {}
    assert(done.holder(caller).token_id == Some(env.next_token_id()));
    assert forall|h1: Seq<u8>, h2: Seq<u8>|
        (#[trigger] done.holder(h1)).token_id.is_some() && done.holder(h1).token_id == (
        #[trigger] done.holder(h2)).token_id implies h1 == h2 by {
        if h1 != caller && h2 != caller {
            assert(env.holder(h1).token_id == env.holder(h2).token_id);
        } else if h1 != caller {
            assert(env.tokens.contains_key(env.holder(h1).token_id.unwrap()));
        } else if h2 != caller {
            assert(env.tokens.contains_key(env.holder(h2).token_id.unwrap()));
        }
    }
}

/// An update that is not refused keeps the registry consistent.
pub proof fn lemma_update_keeps_consistent(
    env: EnvView,
    caller: Seq<u8>,
    token_id: u64,
    username: Seq<char>,
    contributions: u32,
    proof_data: Seq<u8>,
)
    requires
        consistent(env),
        update_refusal(env, caller, token_id).is_none(),
    ensures
        consistent(after_update(env, caller, token_id, username, contributions, proof_data)),
{
    let done = after_update(env, caller, token_id, username, contributions, proof_data);
    assert forall|h: Seq<u8>| #[trigger] done.holder(h) == env.holder(h) by {}
}

/// A registry in which nothing was written for any holder or token is
/// consistent.
pub proof fn lemma_empty_is_consistent(env: EnvView)
    requires
        env.token_counter.is_none(),
        env.tokens == Map::<u64, crate::types::GithubDataView>::empty(),
        env.holders == Map::<Seq<u8>, HolderState>::empty(),
    ensures
        consistent(env),
{
}

/// Once a holder has minted, every further mint of that holder under a name
/// that is not empty is refused with `AlreadyHasIdentity`, and leaves the
/// registry as the first mint left it.
pub proof fn lemma_second_mint_refused(
    env: EnvView,
    caller: Seq<u8>,
    username: Seq<char>,
    contributions: u32,
    proof_data: Seq<u8>,
    nonce: u64,
    again_username: Seq<char>,
    again_contributions: u32,
    again_proof_data: Seq<u8>,
    again_nonce: u64,
)
    requires
        mint_refusal(env, caller, username, nonce).is_none(),
        again_username.len() > 0,
    ensures
        ({
            let first = mint_state(env, caller, username, contributions, proof_data, nonce);
            &&& mint_result(first, caller, again_username, again_nonce) == Err::<u64, Error>(
                Error::AlreadyHasIdentity,
            )
            &&& mint_state(
                first,
                caller,
                again_username,
                again_contributions,
                again_proof_data,
                again_nonce,
            ) == first
        }),
{
}

/// A mint under a name that is not empty, by a holder without an identity,
/// with a nonce other than the holder's current one, is refused with
/// `InvalidNonce`; the registry stays as it was, and with it the token
/// counter and the holder's nonce.
pub proof fn lemma_wrong_nonce_refused(
    env: EnvView,
    caller: Seq<u8>,
    username: Seq<char>,
    contributions: u32,
    proof_data: Seq<u8>,
    nonce: u64,
)
    requires
        username.len() > 0,
        !env.has_identity(caller),
        nonce != env.nonce(caller),
    ensures
        mint_result(env, caller, username, nonce) == Err::<u64, Error>(Error::InvalidNonce),
        ({
            let left = mint_state(env, caller, username, contributions, proof_data, nonce);
            &&& left == env
            &&& left.next_token_id() == env.next_token_id()
            &&& left.nonce(caller) == env.nonce(caller)
        }),
{
}

/// A mint that is not refused advances the nonce of its caller by exactly
/// one and the token counter by exactly one, and leaves the nonce of every
/// other holder as it was.
pub proof fn lemma_mint_advances_by_one(
    env: EnvView,
    caller: Seq<u8>,
    username: Seq<char>,
    contributions: u32,
    proof_data: Seq<u8>,
    nonce: u64,
    other: Seq<u8>,
)
    requires
        mint_refusal(env, caller, username, nonce).is_none(),
        env.next_token_id() < u64::MAX,
        nonce < u64::MAX,
        other != caller,
    ensures
        ({
            let done = mint_state(env, caller, username, contributions, proof_data, nonce);
            &&& done.nonce(caller) == nonce + 1
            &&& done.next_token_id() == env.next_token_id() + 1
            &&& done.nonce(other) == env.nonce(other)
        }),
{
}

/// Having an identity is final: no mint and no update, by whomever, takes
/// the identity of a holder away.
pub proof fn lemma_identity_is_final(
    env: EnvView,
    caller: Seq<u8>,
    token_id: u64,
    username: Seq<char>,
    contributions: u32,
    proof_data: Seq<u8>,
    nonce: u64,
    holder: Seq<u8>,
)
    requires
        env.has_identity(holder),
    ensures
        mint_state(env, caller, username, contributions, proof_data, nonce).has_identity(holder),
        update_state(env, caller, token_id, username, contributions, proof_data).has_identity(
            holder,
        ),
{
}

/// In a consistent registry the token of a holder never changes: neither a
/// mint nor an update, by whomever, rebinds a holder who has a token.
pub proof fn lemma_token_binding_is_permanent(
    env: EnvView,
    caller: Seq<u8>,
    token_id: u64,
    username: Seq<char>,
    contributions: u32,
    proof_data: Seq<u8>,
    nonce: u64,
    holder: Seq<u8>,
)
    requires
        consistent(env),
        env.holder_token(holder).is_some(),
    ensures
        mint_state(env, caller, username, contributions, proof_data, nonce).holder_token(holder)
            == env.holder_token(holder),
        update_state(env, caller, token_id, username, contributions, proof_data).holder_token(
            holder,
        ) == env.holder_token(holder),
{
    assert(env.holder(holder).has_identity);
}

/// While a fee is asked, no mint goes through: one that passes the checks
/// of name, identity and nonce is refused with `InsufficientPayment`.
pub proof fn lemma_fee_blocks_minting(
    env: EnvView,
    caller: Seq<u8>,
    username: Seq<char>,
    contributions: u32,
    proof_data: Seq<u8>,
    nonce: u64,
)
    requires
        env.mint_fee() > 0,
    ensures
        mint_result(env, caller, username, nonce).is_err(),
        mint_state(env, caller, username, contributions, proof_data, nonce) == env,
        username.len() > 0 && !env.has_identity(caller) && nonce == env.nonce(caller)
            ==> mint_result(env, caller, username, nonce) == Err::<u64, Error>(
            Error::InsufficientPayment,
        ),
{
}

/// Without a configuration no fee is asked.
pub proof fn lemma_no_fee_before_initialization(env: EnvView)
    requires
        env.config.is_none(),
    ensures
        env.mint_fee() == 0,
{
}

/// A request to mint.
pub struct MintRequest {
    pub caller: Seq<u8>,
    pub username: Seq<char>,
    pub contributions: u32,
    pub proof_data: Seq<u8>,
    pub nonce: u64,
}

/// The registry after the given requests to mint were served in order.
pub open spec fn after_mints(env: EnvView, requests: Seq<MintRequest>) -> EnvView
    decreases requests.len(),
{
    if requests.len() == 0 {
        env
    } else {
        let r = requests.last();
        mint_state(
            after_mints(env, requests.drop_last()),
            r.caller,
            r.username,
            r.contributions,
            r.proof_data,
            r.nonce,
        )
    }
}

/// Whether the requests come from distinct holders without an identity, each
/// under a name that is not empty and with the holder's current nonce, while
/// no fee is asked and the counter has room for them.
pub open spec fn fresh_requests(env: EnvView, requests: Seq<MintRequest>) -> bool {
    &&& env.mint_fee() <= 0
    &&& env.next_token_id() + requests.len() < u64::MAX
    &&& forall|k: int|
        0 <= k < requests.len() ==> {
            &&& (#[trigger] requests[k]).username.len() > 0
            &&& !env.has_identity(requests[k].caller)
            &&& requests[k].nonce == env.nonce(requests[k].caller)
            &&& requests[k].nonce < u64::MAX
        }
    &&& forall|j: int, k: int|
        0 <= j < k < requests.len() ==> (#[trigger] requests[j]).caller != (
        #[trigger] requests[k]).caller
}

proof fn lemma_mints_progress(env: EnvView, requests: Seq<MintRequest>, n: int)
    requires
        fresh_requests(env, requests),
        0 <= n <= requests.len(),
    ensures
        ({
            let reached = after_mints(env, requests.take(n));
            &&& reached.next_token_id() == env.next_token_id() + n
            &&& reached.config == env.config
            &&& reached.sequence == env.sequence
            &&& forall|h: Seq<u8>|
                (forall|k: int| 0 <= k < n ==> (#[trigger] requests[k]).caller != h)
                    ==> #[trigger] reached.holder(h) == env.holder(h)
        }),
    decreases n,
{
    if n > 0 {
        lemma_mints_progress(env, requests, n - 1);
        let r = requests[n - 1];
        let before = after_mints(env, requests.take(n - 1));
        assert(requests.take(n).drop_last() =~= requests.take(n - 1));
        assert(requests.take(n).last() == r);
        assert(forall|k: int| 0 <= k < n - 1 ==> (#[trigger] requests[k]).caller != r.caller);
        assert(before.holder(r.caller) == env.holder(r.caller));
        assert(mint_refusal(before, r.caller, r.username, r.nonce).is_none());
        let reached = after_mints(env, requests.take(n));
        assert(reached == after_mint(before, r.caller, r.username, r.contributions, r.proof_data));
        assert forall|h: Seq<u8>|
            (forall|k: int| 0 <= k < n ==> (#[trigger] requests[k]).caller != h)
                implies #[trigger] reached.holder(h) == env.holder(h) by {
            assert(requests[n - 1].caller != h);
            assert(forall|k: int| 0 <= k < n - 1 ==> (#[trigger] requests[k]).caller != h);
            assert(before.holder(h) == env.holder(h));
        }
    }
}

/// Mints by distinct holders, served in order, receive consecutive token
/// ids in the order of the calls, from the id that was next before the
/// first: in a registry that has minted nothing these are 1, 2, 3 and so on.
pub proof fn lemma_sequential_token_ids(env: EnvView, requests: Seq<MintRequest>, i: int)
    requires
        fresh_requests(env, requests),
        0 <= i < requests.len(),
    ensures
        mint_result(
            after_mints(env, requests.take(i)),
            requests[i].caller,
            requests[i].username,
            requests[i].nonce,
        ) == Ok::<u64, Error>((env.next_token_id() + i) as u64),
        env.token_counter.is_none() ==> env.next_token_id() + i == i + 1,
{
    lemma_mints_progress(env, requests, i);
    let r = requests[i];
    let before = after_mints(env, requests.take(i));
    assert(forall|k: int| 0 <= k < i ==> (#[trigger] requests[k]).caller != r.caller);
    assert(before.holder(r.caller) == env.holder(r.caller));
}

/// An update of a token by a holder whose own token is another one is
/// refused with `Unauthorized`, and the registry, the record with it, stays
/// as it was.
pub proof fn lemma_update_by_other_refused(
    env: EnvView,
    caller: Seq<u8>,
    token_id: u64,
    username: Seq<char>,
    contributions: u32,
    proof_data: Seq<u8>,
)
    requires
        env.holder_token(caller).is_some(),
        env.holder_token(caller) != Some(token_id),
    ensures
        update_result(env, caller, token_id) == Err::<(), Error>(Error::Unauthorized),
        update_state(env, caller, token_id, username, contributions, proof_data) == env,
{
}

/// In a consistent registry a holder can always update the holder's own
/// token, and the record then carries the tier of the new count.
pub proof fn lemma_owner_update_succeeds(
    env: EnvView,
    caller: Seq<u8>,
    token_id: u64,
    username: Seq<char>,
    contributions: u32,
    proof_data: Seq<u8>,
)
    requires
        consistent(env),
        env.holder_token(caller) == Some(token_id),
    ensures
        update_result(env, caller, token_id) == Ok::<(), Error>(()),
        ({
            let done = update_state(env, caller, token_id, username, contributions, proof_data);
            &&& done.tokens[token_id].tier == tier_of(contributions)
            &&& done.tokens[token_id].contributions == contributions
            &&& done.tokens[token_id].minted_at == env.tokens[token_id].minted_at
        }),
{
    assert(env.holder(caller).token_id.is_some());
}

} // verus!
