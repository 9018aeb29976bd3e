//! Signer recovery: the input handed to the recovery primitive and the
//! reading of what it returns.

use vstd::prelude::*;

use crate::error::PaymasterError;
use crate::types::{all_zero, append_bytes, Address, B256};

verus! {

/// The recovery id in its canonical form: 0 and 1 become 27 and 28; any
/// other value is kept.
pub open spec fn normalized_v(v: u8) -> u8 {
    if v < 27 {
        (v + 27) as u8
    } else {
        v
    }
}

/// The 128-byte input of the recovery primitive: the hash, then `v` as a
/// 32-byte word (31 zero bytes, then `v`), then `r`, then `s`.
pub open spec fn recovery_input_spec(hash: Seq<u8>, v: u8, r: Seq<u8>, s: Seq<u8>) -> Seq<u8> {
    hash + Seq::new(31, |i: int| 0u8).push(normalized_v(v)) + r + s
}

/// The signer that an output of the recovery primitive reports: the last 20
/// bytes of its last 32-byte word, or `None` for a failed call, an output
/// shorter than a word, or the all-zero address.
pub open spec fn recovered_signer(output: Option<Seq<u8>>) -> Option<Seq<u8>> {
    match output {
        None => None,
        Some(o) => if o.len() < 32 {
            None
        } else {
            let a = o.subrange(o.len() - 20, o.len() as int);
            if all_zero(a) {
                None
            } else {
                Some(a)
            }
        },
    }
}

/// The bytes of an optional output.
pub open spec fn output_view(output: Option<Vec<u8>>) -> Option<Seq<u8>> {
    match output {
        Some(o) => Some(o@),
        None => None,
    }
}

pub fn normalize_v(v: u8) -> (r: u8)
    ensures
        r == normalized_v(v),
{
    if v < 27 {
        v + 27
    } else {
        v
    }
}

/// Builds the input of the recovery primitive for a signature `(v, r, s)` over `hash`.
pub fn recovery_input(hash: &B256, v: u8, r: &B256, s: &B256) -> (out: Vec<u8>)
    ensures
        out@ == recovery_input_spec(hash@, v, r@, s@),
        out@.len() == 128,
{
    let mut out: Vec<u8> = Vec::new();
    append_bytes(&mut out, &hash.bytes);
    let mut i: usize = 0;
    while i < 31
        invariant
            i <= 31,
            out@ == hash@ + Seq::new(i as nat, |j: int| 0u8),
        decreases 31 - i,
    {
        out.push(0u8);
        i += 1;
        assert(out@ =~= hash@ + Seq::new(i as nat, |j: int| 0u8));
    }
    out.push(normalize_v(v));
    append_bytes(&mut out, &r.bytes);
    append_bytes(&mut out, &s.bytes);
    assert(out@ =~= recovery_input_spec(hash@, v, r@, s@));
    out
}

/// Reads the signer from what the recovery primitive returned (`None`: the
/// call itself failed).
pub fn decode_recovered(output: Option<Vec<u8>>) -> (r: Result<Address, PaymasterError>)
    ensures
        recovered_signer(output_view(output)) is None ==> r == Err::<Address, PaymasterError>(
            PaymasterError::EcrecoverFailed,
        ),
        recovered_signer(output_view(output)) is Some ==> r is Ok && r->Ok_0@ == recovered_signer(
            output_view(output),
        )->Some_0,
{
    match output {
        None => {
            Err(PaymasterError::EcrecoverFailed)
        },
        Some(o) => {
            if o.len() < 32 {
                return Err(PaymasterError::EcrecoverFailed);
            }
            let start = o.len() - 20;
            let mut bytes = [0u8; 20];
            let mut i: usize = 0;
            while i < 20
                invariant
                    i <= 20,
                    start == o@.len() - 20,
                    32 <= o@.len() <= usize::MAX,
                    forall|j: int| 0 <= j < i ==> #[trigger] bytes@[j] == o@[start + j],
                decreases 20 - i,
            {
                bytes[i] = o[start + i];
                i += 1;
            }
            let addr = Address::new(bytes);
            assert(addr@ =~= o@.subrange(o@.len() - 20, o@.len() as int));
            if addr.is_zero() {
                Err(PaymasterError::EcrecoverFailed)
            } else {
                Ok(addr)
            }
        },
    }
}

} // verus!
