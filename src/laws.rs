//! Properties of the relay that relate several operations or calls.

use vstd::prelude::*;

use crate::error::PaymasterError;
use crate::hashing::{keccak_of, message_bytes, message_hash};
use crate::paymaster::Paymaster;
use crate::types::{
    be_bytes, lemma_be_bytes_injective, lemma_be_bytes_len, lemma_u256_bound, lemma_u256_fits,
    modulus, Address, B256, U256,
};

verus! {

/// An accepted request carries exactly its author's expected nonce, and the
/// author's next expected nonce is then one more: the nonces accepted from a
/// user run 0, 1, 2, ... with no gap and no repeat (short of 2^256 - 1).
pub proof fn law_accepted_nonce_counts_up(
    pre: Paymaster,
    post: Paymaster,
    now: U256,
    from: Address,
    to: Address,
    nonce: U256,
    deadline: U256,
)
    requires
        pre.gate_error(now, from, to, nonce, deadline) is None,
        pre.nonce_advanced(&post, from@),
        nonce@ + 1 < modulus(),
    ensures
        nonce@ == pre.spec_nonce(from@)@,
        post.spec_nonce(from@)@ == nonce@ + 1,
{
    vstd::arithmetic::div_mod::lemma_small_mod((nonce@ + 1) as nat, modulus());
}

/// A request that passes every other gate but carries a nonce other than its
/// author's expected one is refused with `InvalidNonce`, which leaves the
/// state unchanged.
pub proof fn law_wrong_nonce_refused(
    pre: Paymaster,
    now: U256,
    from: Address,
    to: Address,
    nonce: U256,
    deadline: U256,
)
    requires
        pre.spec_initialized(),
        !pre.spec_paused(),
        now@ <= deadline@,
        to@ == pre.spec_target()@,
        nonce@ != pre.spec_nonce(from@)@,
    ensures
        pre.gate_error(now, from, to, nonce, deadline) == Some(
            PaymasterError::InvalidNonce { expected: pre.spec_nonce(from@), provided: nonce },
        ),
{
}

/// Once a request is accepted its nonce is spent, whatever the forwarded
/// call did: the identical request is then refused with `InvalidNonce`.
pub proof fn law_consumed_nonce_refused(
    pre: Paymaster,
    post: Paymaster,
    now: U256,
    from: Address,
    to: Address,
    nonce: U256,
    deadline: U256,
)
    requires
        pre.gate_error(now, from, to, nonce, deadline) is None,
        pre.nonce_advanced(&post, from@),
        post.same_config(&pre),
    ensures
        post.gate_error(now, from, to, nonce, deadline) == Some(
            PaymasterError::InvalidNonce { expected: post.spec_nonce(from@), provided: nonce },
        ),
{
    lemma_u256_bound(nonce);
    let n = nonce@;
    if n + 1 < modulus() {
        vstd::arithmetic::div_mod::lemma_small_mod((n + 1) as nat, modulus());
    } else {
        vstd::arithmetic::div_mod::lemma_mod_self_0(modulus() as int);
        let h = crate::types::half_modulus() as int;
        assert(h * h > 1) by (nonlinear_arith)
            requires
                h > 1,
        ;
    }
}

/// The gates run in a fixed order before the nonce is looked at: an
/// uninitialized relay reports `NotInitialized`, a paused one
/// `ContractPaused`, and an expired request `DeadlineExpired`, whatever its
/// target and nonce.
pub proof fn law_gate_order(
    pre: Paymaster,
    now: U256,
    from: Address,
    to: Address,
    nonce: U256,
    deadline: U256,
)
    ensures
        !pre.spec_initialized() ==> pre.gate_error(now, from, to, nonce, deadline) == Some(
            PaymasterError::NotInitialized,
        ),
        pre.spec_initialized() && pre.spec_paused() ==> pre.gate_error(
            now,
            from,
            to,
            nonce,
            deadline,
        ) == Some(PaymasterError::ContractPaused),
        pre.spec_initialized() && !pre.spec_paused() && now@ > deadline@ ==> pre.gate_error(
            now,
            from,
            to,
            nonce,
            deadline,
        ) == Some(PaymasterError::DeadlineExpired { deadline, current_time: now }),
{
}

/// The signed hash is a function of the six request fields: equal fields
/// give equal hashes.
pub proof fn law_hash_deterministic(
    from1: Address,
    to1: Address,
    value1: U256,
    data1: Seq<u8>,
    nonce1: U256,
    deadline1: U256,
    from2: Address,
    to2: Address,
    value2: U256,
    data2: Seq<u8>,
    nonce2: U256,
    deadline2: U256,
)
    requires
        from1@ == from2@,
        to1@ == to2@,
        value1 == value2,
        data1 == data2,
        nonce1 == nonce2,
        deadline1 == deadline2,
    ensures
        message_hash(from1@, to1@, value1, data1, nonce1, deadline1) == message_hash(
            from2@,
            to2@,
            value2,
            data2,
            nonce2,
            deadline2,
        ),
{
}

/// The hashed message determines each request field: two requests that
/// differ in any byte of a field (or of the payload's digest) are laid out
/// as different messages.
pub proof fn law_message_determined(
    from1: Address,
    to1: Address,
    value1: U256,
    data_hash1: B256,
    nonce1: U256,
    deadline1: U256,
    from2: Address,
    to2: Address,
    value2: U256,
    data_hash2: B256,
    nonce2: U256,
    deadline2: U256,
)
    ensures
        message_bytes(from1@, to1@, value1, data_hash1@, nonce1, deadline1) == message_bytes(
            from2@,
            to2@,
            value2,
            data_hash2@,
            nonce2,
            deadline2,
        ) ==> {
            &&& from1@ == from2@
            &&& to1@ == to2@
            &&& value1@ == value2@
            &&& data_hash1@ == data_hash2@
            &&& nonce1@ == nonce2@
            &&& deadline1@ == deadline2@
        },
{
    let m1 = message_bytes(from1@, to1@, value1, data_hash1@, nonce1, deadline1);
    let m2 = message_bytes(from2@, to2@, value2, data_hash2@, nonce2, deadline2);
    if m1 == m2 {
        lemma_be_bytes_len(value1@, 32);
        lemma_be_bytes_len(nonce1@, 32);
        lemma_be_bytes_len(deadline1@, 32);
        lemma_be_bytes_len(value2@, 32);
        lemma_be_bytes_len(nonce2@, 32);
        lemma_be_bytes_len(deadline2@, 32);
        assert(from1@ =~= m1.subrange(8, 28));
        assert(from2@ =~= m2.subrange(8, 28));
        assert(to1@ =~= m1.subrange(28, 48));
        assert(to2@ =~= m2.subrange(28, 48));
        assert(be_bytes(value1@, 32) =~= m1.subrange(48, 80));
        assert(be_bytes(value2@, 32) =~= m2.subrange(48, 80));
        assert(data_hash1@ =~= m1.subrange(80, 112));
        assert(data_hash2@ =~= m2.subrange(80, 112));
        assert(be_bytes(nonce1@, 32) =~= m1.subrange(112, 144));
        assert(be_bytes(nonce2@, 32) =~= m2.subrange(112, 144));
        assert(be_bytes(deadline1@, 32) =~= m1.subrange(144, 176));
        assert(be_bytes(deadline2@, 32) =~= m2.subrange(144, 176));
        lemma_u256_fits(value1);
        lemma_u256_fits(value2);
        lemma_u256_fits(nonce1);
        lemma_u256_fits(nonce2);
        lemma_u256_fits(deadline1);
        lemma_u256_fits(deadline2);
        lemma_be_bytes_injective(value1@, value2@, 32);
        lemma_be_bytes_injective(nonce1@, nonce2@, 32);
        lemma_be_bytes_injective(deadline1@, deadline2@, 32);
    }
}

/// The nonces accepted from one user, one after another, are 0, 1, 2, ...:
/// along a run of states in which each accepted request carried its author's
/// expected nonce and advanced it, starting from a user never seen, the
/// `k`-th accepted nonce is `k` and the user's next nonce is the number of
/// requests accepted (below 2^256 of them).
pub proof fn law_nonce_run(states: Seq<Paymaster>, nonces: Seq<U256>, user: Address)
    requires
        states.len() == nonces.len() + 1,
        nonces.len() < modulus(),
        states[0].spec_nonce(user@)@ == 0,
        forall|k: int|
            0 <= k < nonces.len() ==> #[trigger] nonces[k]@ == states[k].spec_nonce(user@)@
                && states[k].nonce_advanced(&states[k + 1], user@),
    ensures
        forall|k: int| 0 <= k < nonces.len() ==> #[trigger] nonces[k]@ == k,
        states.last().spec_nonce(user@)@ == nonces.len(),
    decreases nonces.len(),
{
    if nonces.len() > 0 {
        let n = nonces.len() - 1;
        law_nonce_run(states.drop_last(), nonces.drop_last(), user);
        assert(states.drop_last().last() == states[n]);
        assert(nonces[n]@ == n);
        vstd::arithmetic::div_mod::lemma_small_mod((n + 1) as nat, modulus());
        assert forall|k: int| 0 <= k < nonces.len() implies #[trigger] nonces[k]@ == k by {
            if k < n {
                assert(nonces.drop_last()[k] == nonces[k]);
            }
        }
    }
}

/// With Keccak-256 free of collisions, requests that differ in any field,
/// the payload included, have different signed hashes.
pub proof fn law_hash_separates_requests(
    from1: Address,
    to1: Address,
    value1: U256,
    data1: Seq<u8>,
    nonce1: U256,
    deadline1: U256,
    from2: Address,
    to2: Address,
    value2: U256,
    data2: Seq<u8>,
    nonce2: U256,
    deadline2: U256,
)
    requires
        forall|a: Seq<u8>, b: Seq<u8>| #[trigger] keccak_of(a) == #[trigger] keccak_of(b) ==> a == b,
        !(from1@ == from2@ && to1@ == to2@ && value1@ == value2@ && data1 == data2 && nonce1@
            == nonce2@ && deadline1@ == deadline2@),
    ensures
        message_hash(from1@, to1@, value1, data1, nonce1, deadline1) != message_hash(
            from2@,
            to2@,
            value2,
            data2,
            nonce2,
            deadline2,
        ),
{
    let h1 = keccak_of(data1);
    let h2 = keccak_of(data2);
    if message_hash(from1@, to1@, value1, data1, nonce1, deadline1) == message_hash(
        from2@,
        to2@,
        value2,
        data2,
        nonce2,
        deadline2,
    ) {
        let m1 = message_bytes(from1@, to1@, value1, h1, nonce1, deadline1);
        let m2 = message_bytes(from2@, to2@, value2, h2, nonce2, deadline2);
        assert(m1 == m2);
        lemma_be_bytes_len(value1@, 32);
        lemma_be_bytes_len(nonce1@, 32);
        lemma_be_bytes_len(deadline1@, 32);
        lemma_be_bytes_len(value2@, 32);
        lemma_be_bytes_len(nonce2@, 32);
        lemma_be_bytes_len(deadline2@, 32);
        let l = h1.len() as int;
        assert(m1.len() == m2.len());
        assert(h2.len() == l);
        assert(from1@ =~= m1.subrange(8, 28));
        assert(from2@ =~= m2.subrange(8, 28));
        assert(to1@ =~= m1.subrange(28, 48));
        assert(to2@ =~= m2.subrange(28, 48));
        assert(be_bytes(value1@, 32) =~= m1.subrange(48, 80));
        assert(be_bytes(value2@, 32) =~= m2.subrange(48, 80));
        assert(h1 =~= m1.subrange(80, 80 + l));
        assert(h2 =~= m2.subrange(80, 80 + l));
        assert(be_bytes(nonce1@, 32) =~= m1.subrange(80 + l, 112 + l));
        assert(be_bytes(nonce2@, 32) =~= m2.subrange(80 + l, 112 + l));
        assert(be_bytes(deadline1@, 32) =~= m1.subrange(112 + l, 144 + l));
        assert(be_bytes(deadline2@, 32) =~= m2.subrange(112 + l, 144 + l));
        lemma_u256_fits(value1);
        lemma_u256_fits(value2);
        lemma_u256_fits(nonce1);
        lemma_u256_fits(nonce2);
        lemma_u256_fits(deadline1);
        lemma_u256_fits(deadline2);
        lemma_be_bytes_injective(value1@, value2@, 32);
        lemma_be_bytes_injective(nonce1@, nonce2@, 32);
        lemma_be_bytes_injective(deadline1@, deadline2@, 32);
    }
}

} // verus!
