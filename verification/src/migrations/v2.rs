//! The migration engine targeting the current schema. It accepts records
//! under either earlier layout: the stored version tag alone selects the
//! decoder, so a registry can jump from the oldest layout straight to the
//! current one, or arrive here one version at a time.

use crate::migrations::{
    default_name, encode_kitty, records_fit, spec_current_storage_version, StoredRegistry,
};
use crate::table::distinct_keys;
use crate::types::{Kitty, KittyId, StorageVersion};
use vstd::prelude::*;

verus! {

/// A record under the original layout: the genome bytes alone.
#[derive(Clone, Copy, Debug, PartialEq, Eq)]
pub struct V0Kitty(pub [u8; 16]);

/// A record under the second layout: the genome plus a 4-byte label.
#[derive(Clone, Copy, Debug, PartialEq, Eq)]
pub struct V1Kitty {
    pub dna: [u8; 16],
    pub name: [u8; 4],
}

/// What this engine does to one record's bytes, by the layout the stored
/// version tag announces: the genome bytes are carried over unchanged and
/// the label of the current layout takes its default; a record already in
/// the current layout is left alone.
pub open spec fn spec_migrate_record(from_version: StorageVersion, bytes: Seq<u8>) -> Seq<u8> {
    if from_version.0 == 0 {
        bytes + default_name()
    } else if from_version.0 == 1 {
        bytes.take(16) + default_name()
    } else {
        bytes
    }
}

/// Decodes a record of the original layout. Succeeds exactly on records
/// of that layout's length.
fn decode_v0(bytes: &Vec<u8>) -> (r: Option<V0Kitty>)
    ensures
        r is Some <==> bytes@.len() == 16,
        r is Some ==> r->Some_0.0@ == bytes@,
{
    if bytes.len() != 16 {
        return None;
    }
    let mut dna: [u8; 16] = [0u8; 16];
    let mut i: usize = 0;
    while i < 16
        invariant
            0 <= i <= 16,
            bytes@.len() == 16,
            forall|j: int| 0 <= j < i ==> dna@[j] == bytes@[j],
        decreases 16 - i,
    {
        dna[i] = bytes[i];
        i = i + 1;
    }
    proof {
        assert(dna@ =~= bytes@);
    }
    Some(V0Kitty(dna))
}

/// Decodes a record of the second layout. Succeeds exactly on records of
/// that layout's length.
fn decode_v1(bytes: &Vec<u8>) -> (r: Option<V1Kitty>)
    ensures
        r is Some <==> bytes@.len() == 20,
        r is Some ==> r->Some_0.dna@ == bytes@.subrange(0, 16) && r->Some_0.name@
            == bytes@.subrange(16, 20),
{
    if bytes.len() != 20 {
        return None;
    }
    let mut dna: [u8; 16] = [0u8; 16];
    let mut i: usize = 0;
    while i < 16
        invariant
            0 <= i <= 16,
            bytes@.len() == 20,
            forall|j: int| 0 <= j < i ==> dna@[j] == bytes@[j],
        decreases 16 - i,
    {
        dna[i] = bytes[i];
        i = i + 1;
    }
    let mut name: [u8; 4] = [0u8; 4];
    let mut i: usize = 0;
    while i < 4
        invariant
            0 <= i <= 4,
            bytes@.len() == 20,
            forall|j: int| 0 <= j < i ==> name@[j] == bytes@[16 + j],
        decreases 4 - i,
    {
        name[i] = bytes[16 + i];
        i = i + 1;
    }
    proof {
        assert(dna@ =~= bytes@.subrange(0, 16));
        assert(name@ =~= bytes@.subrange(16, 20));
    }
    Some(V1Kitty { dna, name })
}

/// The default label of the current layout, as record bytes.
fn default_name_bytes() -> (name: [u8; 8])
    ensures
        name@ == default_name(),
{
    let name: [u8; 8] = [97, 98, 99, 100, 101, 102, 103, 104];
    proof {
        assert(name@ =~= default_name());
    }
    name
}

/// Rewrites every original-layout record into the current layout,
/// preserving its key and genome and giving the label its default.
fn migrate_from_v0(records: &mut Vec<(KittyId, Vec<u8>)>)
    requires
        records_fit(old(records)@, StorageVersion(0)),
    ensures
        final(records)@.len() == old(records)@.len(),
        forall|j: int|
            0 <= j < old(records)@.len() ==> (#[trigger] final(records)@[j]).0
                == old(records)@[j].0,
        forall|j: int|
            0 <= j < old(records)@.len() ==> (#[trigger] final(records)@[j]).1@
                == old(records)@[j].1@ + default_name(),
{
    let n = records.len();
    let mut i: usize = 0;
    while i < n
        invariant
            n == records@.len(),
            records@.len() == old(records)@.len(),
            0 <= i <= n,
            records_fit(old(records)@, StorageVersion(0)),
            forall|j: int| i <= j < n ==> (#[trigger] records@[j]) == old(records)@[j],
            forall|j: int|
                0 <= j < i ==> (#[trigger] records@[j]).0 == old(records)@[j].0
                    && records@[j].1@ == old(records)@[j].1@ + default_name(),
        decreases n - i,
    {
        let kitty_id = records[i].0;
        let old_kitty = decode_v0(&records[i].1).unwrap();
        let new_kitty = Kitty { dna: old_kitty.0, name: default_name_bytes() };
        let bytes = encode_kitty(&new_kitty);
        records[i] = (kitty_id, bytes);
        proof {
            assert(records@[i as int].1@ =~= old(records)@[i as int].1@ + default_name());
        }
        i = i + 1;
    }
}

/// Rewrites every second-layout record into the current layout, preserving
/// its key and genome; the wider label of the current layout takes its
/// default in place of the old one.
fn migrate_from_v1(records: &mut Vec<(KittyId, Vec<u8>)>)
    requires
        records_fit(old(records)@, StorageVersion(1)),
    ensures
        final(records)@.len() == old(records)@.len(),
        forall|j: int|
            0 <= j < old(records)@.len() ==> (#[trigger] final(records)@[j]).0
                == old(records)@[j].0,
        forall|j: int|
            0 <= j < old(records)@.len() ==> (#[trigger] final(records)@[j]).1@
                == old(records)@[j].1@.take(16) + default_name(),
{
    let n = records.len();
    let mut i: usize = 0;
    while i < n
        invariant
            n == records@.len(),
            records@.len() == old(records)@.len(),
            0 <= i <= n,
            records_fit(old(records)@, StorageVersion(1)),
            forall|j: int| i <= j < n ==> (#[trigger] records@[j]) == old(records)@[j],
            forall|j: int|
                0 <= j < i ==> (#[trigger] records@[j]).0 == old(records)@[j].0
                    && records@[j].1@ == old(records)@[j].1@.take(16) + default_name(),
        decreases n - i,
    {
        let kitty_id = records[i].0;
        let old_kitty = decode_v1(&records[i].1).unwrap();
        let new_kitty = Kitty { dna: old_kitty.dna, name: default_name_bytes() };
        let bytes = encode_kitty(&new_kitty);
        records[i] = (kitty_id, bytes);
        proof {
            assert(old_kitty.dna@ =~= old(records)@[i as int].1@.take(16));
            assert(records@[i as int].1@ =~= old(records)@[i as int].1@.take(16)
                + default_name());
        }
        i = i + 1;
    }
}

/// The migration engine targeting the current schema version: a no-op
/// unless the running code expects the current version; otherwise it
/// dispatches on the stored version tag, rewrites every record into the
/// current layout, and returns the cost consumed (none is accounted).
/// Persisting the new version tag is the caller's responsibility.
pub fn migrate(reg: &mut StoredRegistry, current_version: StorageVersion) -> (w: u64)
    requires
        old(reg).wf(),
    ensures
        w == 0,
        final(reg).on_chain_version == old(reg).on_chain_version,
        current_version != spec_current_storage_version() ==> *final(reg) == *old(reg),
        current_version == spec_current_storage_version() ==> {
            &&& final(reg).records@.len() == old(reg).records@.len()
            &&& (forall|j: int|
                0 <= j < old(reg).records@.len() ==> (#[trigger] final(reg).records@[j]).0
                    == old(reg).records@[j].0)
            &&& (forall|j: int|
                0 <= j < old(reg).records@.len() ==> (#[trigger] final(reg).records@[j]).1@
                    == spec_migrate_record(old(reg).on_chain_version, old(reg).records@[j].1@))
            &&& records_fit(final(reg).records@, spec_current_storage_version())
            &&& distinct_keys(final(reg).records@)
        },
{
    let on_chain_version = reg.on_chain_version;
    if current_version != StorageVersion::new(2) {
        return 0;
    }
    if on_chain_version == StorageVersion::new(0) {
        migrate_from_v0(&mut reg.records);
    } else if on_chain_version == StorageVersion::new(1) {
        migrate_from_v1(&mut reg.records);
    }
    proof {
        assert forall|a: int, b: int|
            0 <= a < b < reg.records@.len() implies reg.records@[a].0 != reg.records@[b].0 by {
            assert(reg.records@[a].0 == old(reg).records@[a].0);
            assert(reg.records@[b].0 == old(reg).records@[b].0);
        }
    }
    0
}

} // verus!
