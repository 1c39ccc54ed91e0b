//! The migration engine and the stored byte layout of entity records.
//!
//! Entities are persisted as raw records: the byte image of a [`Kitty`]
//! under the layout the schema version tag selects. The oldest layout is
//! the 16 genome bytes alone; each later layout only appends a label field
//! with a defined default, so a record never loses or reinterprets bytes.
//! The engine rewrites every stored record into the layout the running
//! code expects, exactly once per upgrade, in a single pass; the upgrade
//! hook then persists the new version tag.

use crate::table::distinct_keys;
use crate::types::{Kitty, KittyId, StorageVersion};
use vstd::prelude::*;

pub mod v1;
pub mod v2;

verus! {

/// The schema version the running code expects records to be laid out in.
pub open spec fn spec_current_storage_version() -> StorageVersion {
    StorageVersion(2)
}

/// The schema version the running code expects records to be laid out in.
pub fn current_storage_version() -> (v: StorageVersion)
    ensures
        v == spec_current_storage_version(),
{
    StorageVersion::new(2)
}

/// The byte length of a stored record under a schema version: the 16
/// genome bytes, plus a 4-byte label from the second version on, widened
/// to 8 bytes in the current one.
pub open spec fn layout_len(version: StorageVersion) -> nat {
    if version.0 == 0 {
        16
    } else if version.0 == 1 {
        20
    } else {
        24
    }
}

/// The persisted image of the entity table: the version tag and one raw
/// record per entity, keyed by its id.
pub struct StoredRegistry {
    /// The schema version the records are currently laid out in.
    pub on_chain_version: StorageVersion,
    /// The raw records, keyed by entity id, in storage order.
    pub records: Vec<(KittyId, Vec<u8>)>,
}

/// Every record has the byte length of the given layout.
pub open spec fn records_fit(records: Seq<(KittyId, Vec<u8>)>, version: StorageVersion) -> bool {
    forall|j: int|
        0 <= j < records.len() ==> (#[trigger] records[j]).1@.len() == layout_len(version)
}

/// The mathematical content of a stored registry's records: ids and bytes.
pub open spec fn records_model(records: Seq<(KittyId, Vec<u8>)>) -> Seq<(KittyId, Seq<u8>)> {
    Seq::new(records.len(), |j: int| (records[j].0, records[j].1@))
}

impl StoredRegistry {
    /// The stored layout is consistent: keys are distinct and every record
    /// matches the layout the version tag announces.
    pub open spec fn wf(self) -> bool {
        &&& distinct_keys(self.records@)
        &&& records_fit(self.records@, self.on_chain_version)
    }
}

/// The default label every record receives when it is migrated to the
/// current layout.
pub open spec fn default_name() -> Seq<u8> {
    seq![97u8, 98u8, 99u8, 100u8, 101u8, 102u8, 103u8, 104u8]
}

/// The byte image of an entity under the current layout: the genome bytes
/// followed by the label bytes.
pub open spec fn spec_encode_kitty(kitty: Kitty) -> Seq<u8> {
    kitty.dna@ + kitty.name@
}

/// Encodes an entity into its current-layout record bytes.
pub fn encode_kitty(kitty: &Kitty) -> (bytes: Vec<u8>)
    ensures
        bytes@ == spec_encode_kitty(*kitty),
        bytes@.len() == 24,
{
    let mut bytes: Vec<u8> = Vec::new();
    let mut i: usize = 0;
    while i < 16
        invariant
            0 <= i <= 16,
            bytes@ == kitty.dna@.take(i as int),
        decreases 16 - i,
    {
        bytes.push(kitty.dna[i]);
        proof {
            assert(bytes@ =~= kitty.dna@.take(i + 1));
        }
        i = i + 1;
    }
    let mut i: usize = 0;
    while i < 8
        invariant
            0 <= i <= 8,
            bytes@ == kitty.dna@ + kitty.name@.take(i as int),
        decreases 8 - i,
    {
        bytes.push(kitty.name[i]);
        proof {
            assert(bytes@ =~= kitty.dna@ + kitty.name@.take(i + 1));
        }
        i = i + 1;
    }
    proof {
        assert(bytes@ =~= spec_encode_kitty(*kitty));
    }
    bytes
}

/// Decodes a current-layout record back into an entity. Succeeds exactly
/// on records of the current layout's length.
pub fn decode_kitty(bytes: &Vec<u8>) -> (r: Option<Kitty>)
    ensures
        r is Some <==> bytes@.len() == 24,
        r is Some ==> r->Some_0.dna@ == bytes@.subrange(0, 16) && r->Some_0.name@
            == bytes@.subrange(16, 24),
{
    if bytes.len() != 24 {
        return None;
    }
    let mut dna: [u8; 16] = [0u8; 16];
    let mut i: usize = 0;
    while i < 16
        invariant
            0 <= i <= 16,
            bytes@.len() == 24,
            forall|j: int| 0 <= j < i ==> dna@[j] == bytes@[j],
        decreases 16 - i,
    {
        dna[i] = bytes[i];
        i = i + 1;
    }
    let mut name: [u8; 8] = [0u8; 8];
    let mut i: usize = 0;
    while i < 8
        invariant
            0 <= i <= 8,
            bytes@.len() == 24,
            forall|j: int| 0 <= j < i ==> name@[j] == bytes@[16 + j],
        decreases 8 - i,
    {
        name[i] = bytes[16 + i];
        i = i + 1;
    }
    proof {
        assert(dna@ =~= bytes@.subrange(0, 16));
        assert(name@ =~= bytes@.subrange(16, 24));
    }
    Some(Kitty { dna, name })
}

/// What the current migration engine does to the whole record table:
/// every record is rewritten in place, under its own key.
pub open spec fn spec_migrate_records(
    from_version: StorageVersion,
    records: Seq<(KittyId, Seq<u8>)>,
) -> Seq<(KittyId, Seq<u8>)> {
    Seq::new(
        records.len(),
        |j: int| (records[j].0, v2::spec_migrate_record(from_version, records[j].1)),
    )
}

/// What one run of the upgrade hook does to the persisted registry: the
/// records are rewritten out of whatever layout the stored tag announces,
/// and the tag is advanced to the current version.
pub open spec fn spec_upgrade(
    from_version: StorageVersion,
    records: Seq<(KittyId, Seq<u8>)>,
) -> (StorageVersion, Seq<(KittyId, Seq<u8>)>) {
    (spec_current_storage_version(), spec_migrate_records(from_version, records))
}

/// The upgrade hook: runs the migration engine for the current schema and
/// then persists the new version tag, so that every record conforms to the
/// layout the tag announces before any other component reads entity data.
pub fn on_runtime_upgrade(reg: &mut StoredRegistry) -> (w: u64)
    requires
        old(reg).wf(),
    ensures
        w == 0,
        final(reg).wf(),
        final(reg).on_chain_version == spec_current_storage_version(),
        records_model(final(reg).records@) == spec_upgrade(
            old(reg).on_chain_version,
            records_model(old(reg).records@),
        ).1,
{
    let w = v2::migrate(reg, current_storage_version());
    reg.on_chain_version = current_storage_version();
    proof {
        assert(records_model(reg.records@) =~= spec_migrate_records(
            old(reg).on_chain_version,
            records_model(old(reg).records@),
        ));
    }
    w
}

/// Law: the upgrade hook is idempotent. Run twice in succession, the
/// second run changes neither the version tag nor a single record byte:
/// a registry already at the current version is rewritten identically.
pub proof fn lemma_upgrade_idempotent(
    from_version: StorageVersion,
    records: Seq<(KittyId, Seq<u8>)>,
)
    ensures
        spec_upgrade(spec_upgrade(from_version, records).0, spec_upgrade(from_version, records).1)
            == spec_upgrade(from_version, records),
{
    let once = spec_upgrade(from_version, records);
    assert(spec_migrate_records(once.0, once.1) =~= once.1);
}

/// Law: migration is total. Every record present before the current
/// migration engine runs is present after it, in the same position and
/// under the same id; the 16 genome bytes are carried over unchanged, and
/// the label of the current layout takes its fixed default wherever the
/// layout actually changed.
pub proof fn lemma_migration_totality(
    from_version: StorageVersion,
    records: Seq<(KittyId, Seq<u8>)>,
)
    requires
        forall|j: int|
            0 <= j < records.len() ==> (#[trigger] records[j]).1.len() == layout_len(from_version),
    ensures
        spec_migrate_records(from_version, records).len() == records.len(),
        forall|j: int|
            0 <= j < records.len() ==> (#[trigger] spec_migrate_records(from_version, records)[j]).0
                == records[j].0,
        forall|j: int|
            0 <= j < records.len() ==> (#[trigger] spec_migrate_records(
                from_version,
                records,
            )[j]).1.take(16) == records[j].1.take(16),
        from_version.0 < 2 ==> forall|j: int|
            0 <= j < records.len() ==> (#[trigger] spec_migrate_records(
                from_version,
                records,
            )[j]).1.skip(16) == default_name(),
{
    assert forall|j: int|
        0 <= j < records.len() implies (#[trigger] spec_migrate_records(
        from_version,
        records,
    )[j]).1.take(16) == records[j].1.take(16) by {
        let migrated = v2::spec_migrate_record(from_version, records[j].1);
        if from_version.0 == 0 {
            assert(migrated.take(16) =~= records[j].1.take(16));
        } else if from_version.0 == 1 {
            assert(migrated.take(16) =~= records[j].1.take(16));
        }
    }
    if from_version.0 < 2 {
        assert forall|j: int|
            0 <= j < records.len() implies (#[trigger] spec_migrate_records(
            from_version,
            records,
        )[j]).1.skip(16) == default_name() by {
            let migrated = v2::spec_migrate_record(from_version, records[j].1);
            assert(migrated.skip(16) =~= default_name());
        }
    }
}

/// Decodes every stored record under the current layout. The registry is
/// read this way only after the upgrade hook has run: the migration engine
/// guarantees every record conforms to the current layout, and then, and
/// only then, decoding succeeds.
pub fn decode_registry(reg: &StoredRegistry) -> (r: Option<Vec<(KittyId, Kitty)>>)
    ensures
        r is Some <==> records_fit(reg.records@, spec_current_storage_version()),
        r is Some ==> {
            &&& r->Some_0@.len() == reg.records@.len()
            &&& (forall|j: int|
                0 <= j < reg.records@.len() ==> (#[trigger] r->Some_0@[j]).0
                    == reg.records@[j].0 && r->Some_0@[j].1.dna@ == reg.records@[j].1@.subrange(
                    0,
                    16,
                ) && r->Some_0@[j].1.name@ == reg.records@[j].1@.subrange(16, 24))
        },
{
    let n = reg.records.len();
    let mut decoded: Vec<(KittyId, Kitty)> = Vec::new();
    let mut i: usize = 0;
    while i < n
        invariant
            n == reg.records@.len(),
            0 <= i <= n,
            decoded@.len() == i,
            forall|j: int|
                0 <= j < i ==> (#[trigger] reg.records@[j]).1@.len() == 24,
            forall|j: int|
                0 <= j < i ==> (#[trigger] decoded@[j]).0 == reg.records@[j].0
                    && decoded@[j].1.dna@ == reg.records@[j].1@.subrange(0, 16)
                    && decoded@[j].1.name@ == reg.records@[j].1@.subrange(16, 24),
        decreases n - i,
    {
        let kitty_id = reg.records[i].0;
        let kitty = match decode_kitty(&reg.records[i].1) {
            Some(parsed) => parsed,
            None => {
                return None;
            },
        };
        decoded.push((kitty_id, kitty));
        i = i + 1;
    }
    Some(decoded)
}

} // verus!
