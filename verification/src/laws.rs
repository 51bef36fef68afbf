use crate::manager::{
    boot_post, create_post, delete_asset_post, delete_post, import_post, load_post,
    put_asset_post, put_value_post, shutdown_post, spec_last_active_key, Durable, Manager,
};
use crate::paths::{spec_base_name, spec_dir_name, spec_unusable_name};
use crate::records::WorkspaceRecord;
use crate::table::lemma_lookup_some_index;
use vstd::prelude::*;

verus! {

/// In a well-formed manager the ids of the registered workspaces are pairwise
/// distinct: every record is filed under its own id and the registry's keys
/// are unique.
pub proof fn lemma_registry_ids_pairwise_distinct(m: Manager)
    requires
        m.wf(),
    ensures
        forall|i: int, j: int|
            0 <= i < j < m.records_seq().len() ==> m.records_seq()[i].1.id@
                != m.records_seq()[j].1.id@,
{
    assert forall|i: int, j: int|
        0 <= i < j < m.records_seq().len() implies m.records_seq()[i].1.id@
        != m.records_seq()[j].1.id@ by {
        assert(m.records_seq()[i].1.id@ == m.records_seq()[i].0@);
        assert(m.records_seq()[j].1.id@ == m.records_seq()[j].0@);
    }
}

/// A created workspace's id names none of the records that existed before the
/// creation.
pub proof fn lemma_created_id_fresh(m0: Manager, m1: Manager, name: String, rec: WorkspaceRecord)
    requires
        m0.wf(),
        create_post(m0, m1, name, rec),
    ensures
        forall|j: int|
            0 <= j < m0.records_seq().len() ==> #[trigger] m0.records_seq()[j].1.id@ != rec.id@,
{
    assert forall|j: int|
        0 <= j < m0.records_seq().len() implies #[trigger] m0.records_seq()[j].1.id@
        != rec.id@ by {
        if m0.records_seq()[j].1.id@ == rec.id@ {
            assert(m0.records_seq()[j].0@ == rec.id@);
            lemma_lookup_some_index(m0.records_seq(), rec.id@);
        }
    }
}

/// Ids drawn by repeated creations are pairwise distinct: the second creation
/// draws an id that names no record, while the first creation's id still
/// names its record.
pub proof fn lemma_created_ids_distinct(
    m0: Manager,
    m1: Manager,
    m2: Manager,
    name1: String,
    name2: String,
    rec1: WorkspaceRecord,
    rec2: WorkspaceRecord,
)
    requires
        create_post(m0, m1, name1, rec1),
        create_post(m1, m2, name2, rec2),
    ensures
        rec1.id@ != rec2.id@,
{
    assert(m1.spec_record(rec1.id@) == Some(rec1));
    assert(m1.spec_record(rec2.id@) is None);
}

/// A creation activates the new workspace at once: afterwards the active id
/// is the new record's id and the registry files the given name under it, so
/// reading the active workspace yields the new id with that name without any
/// explicit load.
pub proof fn lemma_create_activates(m0: Manager, m1: Manager, name: String, rec: WorkspaceRecord)
    requires
        create_post(m0, m1, name, rec),
    ensures
        m1.spec_active_id() == Some(rec.id@),
        m1.spec_record(rec.id@) matches Some(r) && r.name == name,
{
}

/// Key-value isolation: a value written while workspace `a` is active is
/// invisible under workspace `b`, and visible again once `a` is loaded back.
/// `b` starts with no entry for the key (a fresh workspace in particular has
/// no store at all).
pub proof fn lemma_kv_isolation(
    m0: Manager,
    m1: Manager,
    m2: Manager,
    m3: Manager,
    key: String,
    value: String,
    a: String,
    b: String,
)
    requires
        m0.wf(),
        m0.spec_active_id() == Some(a@),
        a@ != b@,
        put_value_post(m0, m1, key, value, Ok(())),
        load_post(m1, m2, b),
        load_post(m2, m3, a),
        match m0.spec_store_of(b@) {
            Some(s) => s.kv.spec_get(key@) is None,
            None => true,
        },
    ensures
        m2.spec_value(key@) is None,
        m3.spec_value(key@) == Some(value),
{
    match (m0.spec_active(), m1.spec_active()) {
        (Some(q0), Some(p1)) => {
            assert(p1.0 == q0.0);
            assert(p1.0@ == a@);
            assert(m1.spec_store_of(b@) == m0.spec_store_of(b@));
            assert(m1.spec_store_of(a@) == Some(p1.1));
            assert(p1.1.kv.spec_get(key@) == Some(value));
            // under b, the write is invisible
            match m2.spec_active() {
                Some(p2) => {
                    assert(p2.0@ == b@);
                    assert(m2.spec_store_of(b@) == Some(p2.1));
                    match m1.spec_store_of(b@) {
                        Some(s) => {
                            assert(p2.1 == s);
                        },
                        None => {
                            assert(p2.1.is_init());
                            assert(p2.1.kv@.len() == 0);
                        },
                    }
                    assert(p2.1.kv.spec_get(key@) is None);
                    assert(m2.spec_value(key@) == p2.1.kv.spec_get(key@));
                },
                None => {
                    assert(false);
                },
            }
            // back under a, the write is visible
            assert(m2.spec_store_of(a@) == m1.spec_store_of(a@));
            match m3.spec_active() {
                Some(p3) => {
                    assert(p3.0@ == a@);
                    assert(m3.spec_store_of(a@) == Some(p3.1));
                    assert(p3.1 == p1.1);
                    assert(m3.spec_value(key@) == p3.1.kv.spec_get(key@));
                },
                None => {
                    assert(false);
                },
            }
        },
        _ => {
            assert(false);
        },
    }
}

/// Deleting a workspace is idempotent: the first delete leaves nothing filed
/// under the id, so a second delete of the same id changes nothing at all.
/// (That a delete of an unknown id succeeds without error is part of
/// `delete`'s signature: it returns nothing and has no failure case.)
pub proof fn lemma_delete_idempotent(m0: Manager, m1: Manager, m2: Manager, id: String)
    requires
        delete_post(m0, m1, id),
        delete_post(m1, m2, id),
    ensures
        m2.records_seq() == m1.records_seq(),
        m2.stores_seq() == m1.stores_seq(),
        m2.spec_active() == m1.spec_active(),
        m2.spec_durable().registry.settings == m1.spec_durable().registry.settings,
        m2.spec_durable().blobs == m1.spec_durable().blobs,
{
    assert(m1.spec_record(id@) is None);
    assert(m1.spec_store_of(id@) is None);
    if m1.spec_active_id() == Some(id@) {
        match m1.spec_active() {
            Some(p) => {
                assert(m1.spec_store_of(id@) == Some(p.1));
            },
            None => {},
        }
    }
}

/// Restart recovery: load a workspace, shut the process down, boot a fresh
/// manager over the surviving durable state — the same workspace is active
/// again without any explicit load, because the load persisted its id as the
/// last-active setting and boot reads that setting back.
pub proof fn lemma_restart_recovery(
    m0: Manager,
    m1: Manager,
    d: Durable,
    m2: Manager,
    x: String,
    assets_dir: String,
)
    requires
        load_post(m0, m1, x),
        shutdown_post(m1, d),
        boot_post(d, assets_dir, m2),
    ensures
        m2.spec_active_id() == Some(x@),
{
    assert(d.registry.settings.spec_get(spec_last_active_key()) == m1.spec_setting(
        spec_last_active_key(),
    ));
    match m1.spec_setting(spec_last_active_key()) {
        Some(v) => {
            assert(v@ == x@);
        },
        None => {
            assert(false);
        },
    }
}

/// Asset round trip, first half: a saved asset's blob holds exactly the saved
/// bytes, so a read of the resolved name yields them back byte for byte.
pub proof fn lemma_asset_round_trip(
    m0: Manager,
    m1: Manager,
    name: String,
    bytes: Vec<u8>,
    mime: String,
    r: Result<(), crate::error::StoreError>,
)
    requires
        put_asset_post(m0, m1, name, bytes, mime, r),
        !spec_unusable_name(spec_base_name(name@)),
    ensures
        m1.spec_blob(spec_base_name(name@)) == Some(bytes),
{
}

/// Asset round trip, second half: deleting an asset's record hides it from
/// the catalog — no listed record carries the name any more — while the blob
/// directory is untouched, so the bytes still read back.
pub proof fn lemma_delete_asset_retains_blob(
    m0: Manager,
    m1: Manager,
    name: String,
)
    requires
        m1.wf(),
        m0.spec_active() is Some,
        delete_asset_post(m0, m1, name, Ok(())),
    ensures
        m1.spec_asset(name@) is None,
        m1.blobs_seq() == m0.blobs_seq(),
        match m1.spec_active() {
            Some(p) => forall|j: int|
                0 <= j < p.1.assets@.len() ==> #[trigger] p.1.assets@[j].1.id@ != name@,
            None => false,
        },
{
    match (m0.spec_active(), m1.spec_active()) {
        (Some(q), Some(p)) => {
            assert forall|j: int|
                0 <= j < p.1.assets@.len() implies #[trigger] p.1.assets@[j].1.id@ != name@ by {
                if p.1.assets@[j].1.id@ == name@ {
                    assert(p.1.assets@[j].0@ == name@);
                    lemma_lookup_some_index(p.1.assets@, name@);
                }
            }
        },
        _ => {
            assert(false);
        },
    }
}

/// Import skip-copy: importing a path that already lies inside the asset
/// directory succeeds without copying — the blob directory is unchanged.
pub proof fn lemma_import_skip_copy(
    m0: Manager,
    m1: Manager,
    path: String,
    source: Option<Vec<u8>>,
    r: Result<String, crate::error::StoreError>,
)
    requires
        import_post(m0, m1, path, source, r),
        !spec_unusable_name(spec_base_name(path@)),
        spec_dir_name(path@) == m0.spec_assets_dir(),
        m0.spec_blob(spec_base_name(path@)) is Some,
        m0.spec_active() is Some,
    ensures
        m1.blobs_seq() == m0.blobs_seq(),
        r is Ok,
{
}

/// Import of an external path: the source's bytes are copied in as exactly
/// one new blob, named by the source's base name.
pub proof fn lemma_import_external_adds_one(
    m0: Manager,
    m1: Manager,
    path: String,
    bytes: Vec<u8>,
    r: Result<String, crate::error::StoreError>,
)
    requires
        import_post(m0, m1, path, Some(bytes), r),
        !spec_unusable_name(spec_base_name(path@)),
        spec_dir_name(path@) != m0.spec_assets_dir(),
        m0.spec_blob(spec_base_name(path@)) is None,
    ensures
        m1.blobs_seq().len() == m0.blobs_seq().len() + 1,
        m1.spec_blob(spec_base_name(path@)) == Some(bytes),
{
}

} // verus!
