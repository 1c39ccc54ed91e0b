//! The genetics engine: derives a pseudo-random genome for a new entity and
//! mixes two parent genomes into an offspring genome.
//!
//! A genome is derived by hashing, with a fixed 128-bit digest, the
//! concatenation of the per-block randomness seed supplied by the host, the
//! requester's identity and the position of the operation within the block.
//! The output is fully determined by those inputs: it is pseudo-random and
//! reproducible, and therefore only as unpredictable as the seed itself.

use crate::types::AccountId;
use vstd::bytes::{spec_u32_to_le_bytes, spec_u64_to_le_bytes, u32_to_le_bytes, u64_to_le_bytes};
use vstd::prelude::*;

verus! {

/// The 16-byte digest the host's hashing service computes for the given
/// input bytes; it is a pure function of them, left unspecified here.
pub uninterp spec fn blake2_128_of(data: Seq<u8>) -> Seq<u8>;

/// Relies on sp_io::hashing::blake2_128: a 128-bit BLAKE2b digest of the
/// input bytes, determined by the input bytes alone.
#[verifier::external_body]
fn blake2_128(data: &[u8]) -> (r: [u8; 16])
    ensures
        r@ == blake2_128_of(data@),
{
    sp_io::hashing::blake2_128(data)
}

/// The bytes fed to the digest when a genome is derived: the randomness
/// seed, the requester's identity in little-endian form, and the operation
/// index, tagged by whether one is known.
pub open spec fn spec_random_payload(
    seed: Seq<u8>,
    sender: AccountId,
    extrinsic_index: Option<u32>,
) -> Seq<u8> {
    seed + spec_u64_to_le_bytes(sender) + (match extrinsic_index {
        Some(index) => seq![1u8] + spec_u32_to_le_bytes(index),
        None => seq![0u8],
    })
}

/// The genome derived for `sender` under a given randomness seed and
/// operation index.
pub open spec fn genome_of(seed: Seq<u8>, sender: AccountId, extrinsic_index: Option<u32>) -> Seq<
    u8,
> {
    blake2_128_of(spec_random_payload(seed, sender, extrinsic_index))
}

/// Derives the genome of a freshly created entity from the per-block
/// randomness seed, the requester and the operation index.
pub fn random_value(seed: &[u8; 32], sender: AccountId, extrinsic_index: Option<u32>) -> (r: [u8;
    16])
    ensures
        r@ == genome_of(seed@, sender, extrinsic_index),
{
    let mut payload: Vec<u8> = Vec::new();
    let mut i: usize = 0;
    while i < 32
        invariant
            0 <= i <= 32,
            payload@ == seed@.take(i as int),
        decreases 32 - i,
    {
        payload.push(seed[i]);
        proof {
            assert(payload@ =~= seed@.take(i + 1));
        }
        i = i + 1;
    }
    proof {
        assert(payload@ =~= seed@);
    }
    let mut sender_bytes = u64_to_le_bytes(sender);
    payload.append(&mut sender_bytes);
    match extrinsic_index {
        Some(index) => {
            payload.push(1u8);
            let mut index_bytes = u32_to_le_bytes(index);
            payload.append(&mut index_bytes);
        },
        None => {
            payload.push(0u8);
        },
    }
    proof {
        assert(payload@ =~= spec_random_payload(seed@, sender, extrinsic_index));
    }
    blake2_128(payload.as_slice())
}

/// One byte of an offspring genome: where a selector bit is set the byte
/// comes from the first parent, elsewhere from the second.
pub open spec fn crossover_byte(a: u8, b: u8, sel: u8) -> u8 {
    (a & sel) | (b & !sel)
}

/// Mixes two parent genomes byte by byte under a selector genome. A pure,
/// side-effect-free blend: no output byte needs to equal either parent's.
pub fn crossover(a: &[u8; 16], b: &[u8; 16], selector: &[u8; 16]) -> (r: [u8; 16])
    ensures
        forall|i: int| 0 <= i < 16 ==> r@[i] == crossover_byte(a@[i], b@[i], selector@[i]),
{
    let mut data: [u8; 16] = [0u8; 16];
    let mut i: usize = 0;
    while i < 16
        invariant
            0 <= i <= 16,
            forall|j: int| 0 <= j < i ==> data@[j] == crossover_byte(a@[j], b@[j], selector@[j]),
        decreases 16 - i,
    {
        data[i] = (a[i] & selector[i]) | (b[i] & !selector[i]);
        i = i + 1;
    }
    data
}

} // verus!
