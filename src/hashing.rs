//! The canonical, domain-separated hash that an author signs for a request.

use vstd::prelude::*;

use crate::types::{append_bytes, be_bytes, lemma_be_bytes_len, Address, B256, U256};

verus! {

/// The Keccak-256 digest of `data`.
pub uninterp spec fn keccak_of(data: Seq<u8>) -> Seq<u8>;

/// Relies on `stylus_sdk::crypto::keccak` (which calls
/// `alloy_primitives::keccak256`): the 32-byte Keccak-256 digest, a function
/// of the input alone.
#[verifier::external_body]
fn keccak(data: &[u8]) -> (r: B256)
    ensures
        r@ == keccak_of(data@),
{
    B256 { bytes: stylus_sdk::crypto::keccak(data).0 }
}

/// The ASCII bytes of the tag `StylusTx` that open every signed message.
pub open spec fn domain_tag() -> Seq<u8> {
    seq![0x53u8, 0x74u8, 0x79u8, 0x6cu8, 0x75u8, 0x73u8, 0x54u8, 0x78u8]
}

/// The bytes that are hashed for a request: tag, `from`, `to`, `value`, the
/// digest of the payload, `nonce` and `deadline`, integers as 32-byte big-endian.
pub open spec fn message_bytes(
    from: Seq<u8>,
    to: Seq<u8>,
    value: U256,
    data_hash: Seq<u8>,
    nonce: U256,
    deadline: U256,
) -> Seq<u8> {
    domain_tag() + from + to + be_bytes(value@, 32) + data_hash + be_bytes(nonce@, 32) + be_bytes(
        deadline@,
        32,
    )
}

/// The hash an author signs for the request `(from, to, value, data, nonce, deadline)`.
pub open spec fn message_hash(
    from: Seq<u8>,
    to: Seq<u8>,
    value: U256,
    data: Seq<u8>,
    nonce: U256,
    deadline: U256,
) -> Seq<u8> {
    keccak_of(message_bytes(from, to, value, keccak_of(data), nonce, deadline))
}

/// The domain tag as a byte vector.
pub fn domain_separator() -> (r: Vec<u8>)
    ensures
        r@ == domain_tag(),
{
    let r: Vec<u8> = vec![0x53u8, 0x74u8, 0x79u8, 0x6cu8, 0x75u8, 0x73u8, 0x54u8, 0x78u8];
    assert(r@ =~= domain_tag());
    r
}

/// Lays out the message for a request whose payload digest is `data_hash`.
pub fn encode_message(
    from: &Address,
    to: &Address,
    value: &U256,
    data_hash: &B256,
    nonce: &U256,
    deadline: &U256,
) -> (r: Vec<u8>)
    ensures
        r@ == message_bytes(from@, to@, *value, data_hash@, *nonce, *deadline),
        r@.len() == 176,
{
    let mut message = domain_separator();
    append_bytes(&mut message, &from.bytes);
    append_bytes(&mut message, &to.bytes);
    let v = value.to_be_bytes();
    append_bytes(&mut message, v.as_slice());
    append_bytes(&mut message, &data_hash.bytes);
    let n = nonce.to_be_bytes();
    append_bytes(&mut message, n.as_slice());
    let d = deadline.to_be_bytes();
    append_bytes(&mut message, d.as_slice());
    proof {
        lemma_be_bytes_len(value@, 32);
        lemma_be_bytes_len(nonce@, 32);
        lemma_be_bytes_len(deadline@, 32);
        assert(message@ =~= message_bytes(from@, to@, *value, data_hash@, *nonce, *deadline));
    }
    message
}

/// The hash that the author of a request signs: Keccak-256 of the message,
/// with the payload bound by its own Keccak-256 digest.
pub fn compute_hash(
    from: &Address,
    to: &Address,
    value: &U256,
    data: &[u8],
    nonce: &U256,
    deadline: &U256,
) -> (r: B256)
    ensures
        r@ == message_hash(from@, to@, *value, data@, *nonce, *deadline),
{
    let data_hash = keccak(data);
    let message = encode_message(from, to, value, &data_hash, nonce, deadline);
    keccak(message.as_slice())
}

} // verus!
