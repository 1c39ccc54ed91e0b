//! The first schema migration: from the original record layout, the 16
//! genome bytes alone, to the second layout, which appends a 4-byte label
//! with a fixed default. It applies only when the registry still holds the
//! original layout and the running code targets the second.

use crate::migrations::{records_fit, StoredRegistry};
use crate::table::distinct_keys;
use crate::types::{KittyId, StorageVersion};
use vstd::prelude::*;

verus! {

/// A record under the original layout: the genome bytes alone.
#[derive(Clone, Copy, Debug, PartialEq, Eq)]
pub struct V0Kitty(pub [u8; 16]);

/// A record under the second layout: the genome plus a 4-byte label.
#[derive(Clone, Copy, Debug, PartialEq, Eq)]
pub struct V1Kitty {
    pub dna: [u8; 16],
    pub name: [u8; 4],
}

/// The default label every record receives in this migration.
pub open spec fn default_name_v1() -> Seq<u8> {
    seq![97u8, 98u8, 99u8, 100u8]
}

/// Decodes a record of the original layout. Succeeds exactly on records
/// of that layout's length.
fn decode_v0(bytes: &Vec<u8>) -> (r: Option<V0Kitty>)
    ensures
        r is Some <==> bytes@.len() == 16,
        r is Some ==> r->Some_0.0@ == bytes@,
{
    if bytes.len() != 16 {
        return None;
    }
    let mut dna: [u8; 16] = [0u8; 16];
    let mut i: usize = 0;
    while i < 16
        invariant
            0 <= i <= 16,
            bytes@.len() == 16,
            forall|j: int| 0 <= j < i ==> dna@[j] == bytes@[j],
        decreases 16 - i,
    {
        dna[i] = bytes[i];
        i = i + 1;
    }
    proof {
        assert(dna@ =~= bytes@);
    }
    Some(V0Kitty(dna))
}

/// Encodes an entity into its second-layout record bytes.
fn encode_v1(kitty: &V1Kitty) -> (bytes: Vec<u8>)
    ensures
        bytes@ == kitty.dna@ + kitty.name@,
        bytes@.len() == 20,
{
    let mut bytes: Vec<u8> = Vec::new();
    let mut i: usize = 0;
    while i < 16
        invariant
            0 <= i <= 16,
            bytes@ == kitty.dna@.take(i as int),
        decreases 16 - i,
    {
        bytes.push(kitty.dna[i]);
        proof {
            assert(bytes@ =~= kitty.dna@.take(i + 1));
        }
        i = i + 1;
    }
    let mut i: usize = 0;
    while i < 4
        invariant
            0 <= i <= 4,
            bytes@ == kitty.dna@ + kitty.name@.take(i as int),
        decreases 4 - i,
    {
        bytes.push(kitty.name[i]);
        proof {
            assert(bytes@ =~= kitty.dna@ + kitty.name@.take(i + 1));
        }
        i = i + 1;
    }
    proof {
        assert(bytes@ =~= kitty.dna@ + kitty.name@);
    }
    bytes
}

/// The migration engine targeting the second schema version: a no-op
/// unless the stored tag is the original version and the running code
/// targets the second; otherwise it rewrites every record into the second
/// layout, preserving its key and genome. Persisting the new version tag
/// is the caller's responsibility.
pub fn migrate(reg: &mut StoredRegistry, current_version: StorageVersion) -> (w: u64)
    requires
        old(reg).wf(),
    ensures
        w == 0,
        final(reg).on_chain_version == old(reg).on_chain_version,
        old(reg).on_chain_version != StorageVersion(0) || current_version != StorageVersion(1)
            ==> *final(reg) == *old(reg),
        old(reg).on_chain_version == StorageVersion(0) && current_version == StorageVersion(1)
            ==> {
            &&& final(reg).records@.len() == old(reg).records@.len()
            &&& (forall|j: int|
                0 <= j < old(reg).records@.len() ==> (#[trigger] final(reg).records@[j]).0
                    == old(reg).records@[j].0)
            &&& (forall|j: int|
                0 <= j < old(reg).records@.len() ==> (#[trigger] final(reg).records@[j]).1@
                    == old(reg).records@[j].1@ + default_name_v1())
            &&& records_fit(final(reg).records@, StorageVersion(1))
            &&& distinct_keys(final(reg).records@)
        },
{
    if reg.on_chain_version != StorageVersion::new(0) {
        return 0;
    }
    if current_version != StorageVersion::new(1) {
        return 0;
    }
    let n = reg.records.len();
    let mut i: usize = 0;
    while i < n
        invariant
            n == reg.records@.len(),
            reg.records@.len() == old(reg).records@.len(),
            reg.on_chain_version == old(reg).on_chain_version,
            0 <= i <= n,
            records_fit(old(reg).records@, StorageVersion(0)),
            old(reg).on_chain_version == StorageVersion(0),
            forall|j: int| i <= j < n ==> (#[trigger] reg.records@[j]) == old(reg).records@[j],
            forall|j: int|
                0 <= j < i ==> (#[trigger] reg.records@[j]).0 == old(reg).records@[j].0
                    && reg.records@[j].1@ == old(reg).records@[j].1@ + default_name_v1(),
        decreases n - i,
    {
        let kitty_id = reg.records[i].0;
        let old_kitty = decode_v0(&reg.records[i].1).unwrap();
        let name: [u8; 4] = [97, 98, 99, 100];
        let new_kitty = V1Kitty { dna: old_kitty.0, name };
        let bytes = encode_v1(&new_kitty);
        reg.records[i] = (kitty_id, bytes);
        proof {
            assert(name@ =~= default_name_v1());
            assert(reg.records@[i as int].1@ =~= old(reg).records@[i as int].1@
                + default_name_v1());
        }
        i = i + 1;
    }
    proof {
        assert forall|a: int, b: int|
            0 <= a < b < reg.records@.len() implies reg.records@[a].0 != reg.records@[b].0 by {
            assert(reg.records@[a].0 == old(reg).records@[a].0);
            assert(reg.records@[b].0 == old(reg).records@[b].0);
        }
    }
    0
}

} // verus!
