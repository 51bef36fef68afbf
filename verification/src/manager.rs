use crate::error::StoreError;
use crate::outside::{current_timestamp, fresh_workspace_id, guess_mime, guessed_mime_of};
use crate::paths::{
    base_name, dir_name, spec_base_name, spec_dir_name, spec_unusable_name, unusable_name,
};
use crate::records::{AssetRecord, WorkspaceRecord};
use crate::registry::Registry;
use crate::store::WorkspaceStore;
use crate::table::{lemma_lookup_some_index, lemma_lookup_value_index, Table};
use vstd::prelude::*;

verus! {

/// The setting key under which the registry remembers the last active
/// workspace for startup recovery.
pub open spec fn spec_last_active_key() -> Seq<char> {
    "last_project_id"@
}

/// Everything that lives on disk: the registry file, one store per workspace
/// (keyed by workspace id), and the shared directory of asset blobs (keyed by
/// file name). A fresh process start receives a `Durable` and hands it back
/// at shutdown.
pub struct Durable {
    pub registry: Registry,
    pub stores: Table<WorkspaceStore>,
    pub blobs: Table<Vec<u8>>,
}

impl Durable {
    pub open spec fn wf(&self) -> bool {
        &&& self.registry.wf()
        &&& self.stores.wf()
        &&& self.blobs.wf()
        &&& forall|j: int| 0 <= j < self.stores@.len() ==> #[trigger] self.stores@[j].1.wf()
    }

    pub fn new() -> (d: Self)
        ensures
            d.wf(),
            d.registry.records@.len() == 0,
            d.registry.settings@.len() == 0,
            d.stores@.len() == 0,
            d.blobs@.len() == 0,
    {
        Durable { registry: Registry::new(), stores: Table::new(), blobs: Table::new() }
    }

    /// Park a closed workspace store back into the store directory.
    fn park_store(&mut self, id: String, st: WorkspaceStore)
        requires
            old(self).wf(),
            st.wf(),
        ensures
            final(self).wf(),
            final(self).registry == old(self).registry,
            final(self).blobs == old(self).blobs,
            final(self).stores.spec_get(id@) == Some(st),
            forall|x: Seq<char>|
                x != id@ ==> #[trigger] final(self).stores.spec_get(x) == old(self).stores.spec_get(
                    x,
                ),
    {
        self.stores.put(id, st);
        proof {
            assert forall|j: int|
                0 <= j < self.stores@.len() implies #[trigger] self.stores@[j].1.wf() by {
                if old(self).stores.contains_key(id@) {
                    let i = choose|i: int|
                        0 <= i < old(self).stores@.len() && old(self).stores@[i].0@ == id@
                            && self.stores@ == old(self).stores@.update(i, (id, st));
                    if j != i {
                        assert(self.stores@[j] == old(self).stores@[j]);
                    }
                } else {
                    if j < old(self).stores@.len() {
                        assert(self.stores@[j] == old(self).stores@[j]);
                    }
                }
            }
        }
    }

    /// Check a workspace store out of the store directory, if one exists.
    fn take_store(&mut self, id: &String) -> (r: Option<WorkspaceStore>)
        requires
            old(self).wf(),
        ensures
            final(self).wf(),
            final(self).registry == old(self).registry,
            final(self).blobs == old(self).blobs,
            r == old(self).stores.spec_get(id@),
            r matches Some(s) ==> s.wf(),
            final(self).stores.spec_get(id@) is None,
            forall|x: Seq<char>|
                x != id@ ==> #[trigger] final(self).stores.spec_get(x) == old(self).stores.spec_get(
                    x,
                ),
            !old(self).stores.contains_key(id@) ==> final(self).stores@ == old(self).stores@,
    {
        let r = self.stores.take(id);
        proof {
            if old(self).stores.contains_key(id@) {
                lemma_lookup_value_index(old(self).stores@, id@);
                let i = choose|i: int|
                    0 <= i < old(self).stores@.len() && old(self).stores@[i].0@ == id@
                        && self.stores@ == old(self).stores@.remove(i);
                assert forall|j: int|
                    0 <= j < self.stores@.len() implies #[trigger] self.stores@[j].1.wf() by {
                    let oj: int = if j < i {
                        j
                    } else {
                        j + 1
                    };
                    assert(self.stores@[j] == old(self).stores@[oj]);
                }
                let w = choose|w: int|
                    0 <= w < old(self).stores@.len() && old(self).stores@[w].0@ == id@
                        && old(self).stores.spec_get(id@) == Some(old(self).stores@[w].1);
                assert(old(self).stores@[w].1.wf());
            }
        }
        r
    }
}

/// The workspace lifecycle and storage manager: the durable state plus the
/// active workspace slot. At most one workspace store is open at any instant;
/// an open store is held in the slot and is absent from the parked store
/// directory until it is switched away or the manager shuts down.
pub struct Manager {
    durable: Durable,
    active: Option<(String, WorkspaceStore)>,
    assets_dir: String,
}

impl Manager {
    pub closed spec fn spec_durable(&self) -> Durable {
        self.durable
    }

    /// The active workspace slot: the open store and the id it belongs to.
    /// Both are present or both are absent.
    pub closed spec fn spec_active(&self) -> Option<(String, WorkspaceStore)> {
        self.active
    }

    /// The directory that asset imports compare source paths against.
    pub closed spec fn spec_assets_dir(&self) -> Seq<char> {
        self.assets_dir@
    }

    pub open spec fn wf(&self) -> bool {
        &&& self.spec_durable().wf()
        &&& match self.spec_active() {
            Some(p) => p.1.wf() && !self.spec_durable().stores.contains_key(p.0@),
            None => true,
        }
    }

    pub open spec fn spec_active_id(&self) -> Option<Seq<char>> {
        match self.spec_active() {
            Some(p) => Some(p.0@),
            None => None,
        }
    }

    pub open spec fn records_seq(&self) -> Seq<(String, WorkspaceRecord)> {
        self.spec_durable().registry.records@
    }

    pub open spec fn spec_record(&self, id: Seq<char>) -> Option<WorkspaceRecord> {
        self.spec_durable().registry.records.spec_get(id)
    }

    pub open spec fn spec_setting(&self, key: Seq<char>) -> Option<String> {
        self.spec_durable().registry.settings.spec_get(key)
    }

    pub open spec fn spec_blob(&self, name: Seq<char>) -> Option<Vec<u8>> {
        self.spec_durable().blobs.spec_get(name)
    }

    pub open spec fn blobs_seq(&self) -> Seq<(String, Vec<u8>)> {
        self.spec_durable().blobs@
    }

    pub open spec fn stores_seq(&self) -> Seq<(String, WorkspaceStore)> {
        self.spec_durable().stores@
    }

    /// The store belonging to workspace `id`, whether parked in the store
    /// directory or opened in the active slot.
    pub open spec fn spec_store_of(&self, id: Seq<char>) -> Option<WorkspaceStore> {
        match self.spec_active() {
            Some(p) => if p.0@ == id {
                Some(p.1)
            } else {
                self.spec_durable().stores.spec_get(id)
            },
            None => self.spec_durable().stores.spec_get(id),
        }
    }

    /// What a key-value read observes: the active workspace's entry for `k`,
    /// absent when no workspace is active.
    pub open spec fn spec_value(&self, k: Seq<char>) -> Option<String> {
        match self.spec_active() {
            Some(p) => p.1.kv.spec_get(k),
            None => None,
        }
    }

    /// The active workspace's asset record filed under `id`.
    pub open spec fn spec_asset(&self, id: Seq<char>) -> Option<AssetRecord> {
        match self.spec_active() {
            Some(p) => p.1.assets.spec_get(id),
            None => None,
        }
    }
}

/// What `load` leaves behind: the requested workspace is active, its store is
/// the one that already existed (parked or already open) or a freshly created
/// empty one, every other workspace's store is untouched, and the last-active
/// setting now names the requested id. Loading never consults the registry
/// records: a store whose record was deleted can still be loaded, and a store
/// is created lazily on the first load of a new id.
pub open spec fn load_post(pre: Manager, post: Manager, id: String) -> bool {
    &&& post.spec_active_id() == Some(id@)
    &&& match pre.spec_store_of(id@) {
        Some(s) => post.spec_store_of(id@) == Some(s),
        None => post.spec_store_of(id@) matches Some(s) && s.is_init(),
    }
    &&& forall|x: Seq<char>|
        x != id@ ==> #[trigger] post.spec_store_of(x) == pre.spec_store_of(x)
    &&& post.records_seq() == pre.records_seq()
    &&& (post.spec_setting(spec_last_active_key()) matches Some(v) && v@ == id@)
    &&& forall|k: Seq<char>|
        k != spec_last_active_key() ==> #[trigger] post.spec_setting(k) == pre.spec_setting(k)
    &&& post.blobs_seq() == pre.blobs_seq()
    &&& post.spec_assets_dir() == pre.spec_assets_dir()
}

/// What `put_value` leaves behind: with no active workspace the request is
/// refused untouched; otherwise the active workspace's entry for `key` now
/// holds `value`, every other entry, the asset catalog and all durable state
/// are untouched.
pub open spec fn put_value_post(
    pre: Manager,
    post: Manager,
    key: String,
    value: String,
    r: Result<(), StoreError>,
) -> bool {
    match pre.spec_active() {
        None => r == Err::<(), StoreError>(StoreError::NoActiveWorkspace) && post == pre,
        Some(q) => {
            &&& r == Ok::<(), StoreError>(())
            &&& post.spec_durable() == pre.spec_durable()
            &&& post.spec_assets_dir() == pre.spec_assets_dir()
            &&& (post.spec_active() matches Some(p) && p.0 == q.0 && p.1.assets == q.1.assets
                && p.1.kv.spec_get(key@) == Some(value) && (forall|k2: Seq<char>|
                k2 != key@ ==> #[trigger] p.1.kv.spec_get(k2) == q.1.kv.spec_get(k2)))
        },
    }
}

/// What a successful `create` leaves behind: a record with the drawn id and
/// the given name stands at the end of the registry (so newest-first listings
/// begin with it), the drawn id named no record before, and the new workspace
/// is active immediately, opened the same way a load opens it, with the
/// last-active setting pointing at it.
pub open spec fn create_post(
    pre: Manager,
    post: Manager,
    name: String,
    rec: WorkspaceRecord,
) -> bool {
    &&& pre.spec_record(rec.id@) is None
    &&& rec.name == name
    &&& post.records_seq() == pre.records_seq().push((rec.id, rec))
    &&& post.spec_record(rec.id@) == Some(rec)
    &&& forall|x: Seq<char>|
        x != rec.id@ ==> #[trigger] post.spec_record(x) == pre.spec_record(x)
    &&& post.spec_active_id() == Some(rec.id@)
    &&& match pre.spec_store_of(rec.id@) {
        Some(s) => post.spec_store_of(rec.id@) == Some(s),
        None => post.spec_store_of(rec.id@) matches Some(s) && s.is_init(),
    }
    &&& forall|x: Seq<char>|
        x != rec.id@ ==> #[trigger] post.spec_store_of(x) == pre.spec_store_of(x)
    &&& (post.spec_setting(spec_last_active_key()) matches Some(v) && v@ == rec.id@)
    &&& forall|k: Seq<char>|
        k != spec_last_active_key() ==> #[trigger] post.spec_setting(k) == pre.spec_setting(k)
    &&& post.blobs_seq() == pre.blobs_seq()
    &&& post.spec_assets_dir() == pre.spec_assets_dir()
}

/// What `delete` leaves behind: neither a record nor a store under `id` (and
/// none was touched for any other id), settings and blobs untouched, and the
/// slot cleared exactly when the deleted workspace was the active one. On an
/// id with no record and no store the whole state is untouched.
pub open spec fn delete_post(pre: Manager, post: Manager, id: String) -> bool {
    &&& post.spec_record(id@) is None
    &&& forall|x: Seq<char>| x != id@ ==> #[trigger] post.spec_record(x) == pre.spec_record(x)
    &&& pre.spec_record(id@) is None ==> post.records_seq() == pre.records_seq()
    &&& post.spec_store_of(id@) is None
    &&& forall|x: Seq<char>|
        x != id@ ==> #[trigger] post.spec_store_of(x) == pre.spec_store_of(x)
    &&& (if pre.spec_active_id() == Some(id@) {
        post.spec_active() is None
    } else {
        post.spec_active() == pre.spec_active()
    })
    &&& pre.spec_store_of(id@) is None ==> post.stores_seq() == pre.stores_seq()
    &&& post.spec_durable().registry.settings == pre.spec_durable().registry.settings
    &&& post.spec_durable().blobs == pre.spec_durable().blobs
    &&& post.spec_assets_dir() == pre.spec_assets_dir()
}

/// What `put_asset` leaves behind. A name that resolves to nothing — empty,
/// `.` or `..` — is refused untouched. Otherwise the blob now holds the given bytes whatever
/// else happened; the record, filed under the resolved name with the
/// caller-declared MIME type taken on trust, lands in the active workspace's
/// catalog, or the request ends in `NoActiveWorkspace` with the blob already
/// written: the blob write deliberately precedes the catalog check.
pub open spec fn put_asset_post(
    pre: Manager,
    post: Manager,
    name: String,
    bytes: Vec<u8>,
    mime: String,
    r: Result<(), StoreError>,
) -> bool {
    let safe = spec_base_name(name@);
    &&& post.spec_assets_dir() == pre.spec_assets_dir()
    &&& if spec_unusable_name(safe) {
        r == Err::<(), StoreError>(StoreError::InvalidInput) && post == pre
    } else {
        &&& post.spec_blob(safe) == Some(bytes)
        &&& forall|x: Seq<char>| x != safe ==> #[trigger] post.spec_blob(x) == pre.spec_blob(x)
        &&& post.records_seq() == pre.records_seq()
        &&& post.spec_durable().registry.settings == pre.spec_durable().registry.settings
        &&& post.stores_seq() == pre.stores_seq()
        &&& match pre.spec_active() {
            None => r == Err::<(), StoreError>(StoreError::NoActiveWorkspace) && post.spec_active()
                is None,
            Some(q) => {
                &&& r == Ok::<(), StoreError>(())
                &&& (post.spec_active() matches Some(p) && p.0 == q.0 && p.1.kv == q.1.kv && (
                p.1.assets.spec_get(safe) matches Some(rec) && rec.id@ == safe && rec.name@ == safe
                    && rec.mime_type == mime) && (forall|x: Seq<char>|
                    x != safe ==> #[trigger] p.1.assets.spec_get(x) == q.1.assets.spec_get(x)))
            },
        }
    }
}

/// What `delete_asset_record` leaves behind: with no active workspace the
/// request is refused untouched; otherwise the active catalog no longer files
/// anything under the name, every other record, the key-value table and all
/// durable state — the blob in particular — are untouched.
pub open spec fn delete_asset_post(
    pre: Manager,
    post: Manager,
    name: String,
    r: Result<(), StoreError>,
) -> bool {
    match pre.spec_active() {
        None => r == Err::<(), StoreError>(StoreError::NoActiveWorkspace) && post == pre,
        Some(q) => {
            &&& r == Ok::<(), StoreError>(())
            &&& post.spec_durable() == pre.spec_durable()
            &&& post.spec_assets_dir() == pre.spec_assets_dir()
            &&& (post.spec_active() matches Some(p) && p.0 == q.0 && p.1.kv == q.1.kv
                && p.1.assets.spec_get(name@) is None && (forall|x: Seq<char>|
                x != name@ ==> #[trigger] p.1.assets.spec_get(x) == q.1.assets.spec_get(x)) && (
            q.1.assets.spec_get(name@) is None ==> p.1.assets@ == q.1.assets@))
        },
    }
}

/// What `import_asset` leaves behind. The source path resolves to a base
/// name; a name that resolves to nothing — empty, `.` or `..` — is refused
/// untouched. A source inside the asset
/// directory must already exist as a blob and is never copied; any other
/// source must come with bytes, which are copied in under the name,
/// overwriting at most one blob and adding at most one. The record lands in
/// the active workspace's catalog with the guessed MIME type, or the request
/// ends in `NoActiveWorkspace` with a copied blob already written.
pub open spec fn import_post(
    pre: Manager,
    post: Manager,
    path: String,
    source: Option<Vec<u8>>,
    r: Result<String, StoreError>,
) -> bool {
    let name = spec_base_name(path@);
    let inside = spec_dir_name(path@) == pre.spec_assets_dir();
    let available = if inside {
        pre.spec_blob(name) is Some
    } else {
        source is Some
    };
    &&& post.spec_assets_dir() == pre.spec_assets_dir()
    &&& if spec_unusable_name(name) {
        r == Err::<String, StoreError>(StoreError::InvalidInput) && post == pre
    } else if !available {
        r == Err::<String, StoreError>(StoreError::NotFound) && post == pre
    } else {
        &&& if inside {
            post.blobs_seq() == pre.blobs_seq()
        } else {
            &&& (source matches Some(b) && post.spec_blob(name) == Some(b))
            &&& forall|x: Seq<char>|
                x != name ==> #[trigger] post.spec_blob(x) == pre.spec_blob(x)
            &&& pre.spec_blob(name) is Some ==> post.blobs_seq().len() == pre.blobs_seq().len()
            &&& pre.spec_blob(name) is None ==> post.blobs_seq().len() == pre.blobs_seq().len()
                + 1
        }
        &&& post.records_seq() == pre.records_seq()
        &&& post.spec_durable().registry.settings == pre.spec_durable().registry.settings
        &&& post.stores_seq() == pre.stores_seq()
        &&& match pre.spec_active() {
            None => r == Err::<String, StoreError>(StoreError::NoActiveWorkspace)
                && post.spec_active() is None,
            Some(q) => {
                &&& (r matches Ok(ret) && ret@ == name)
                &&& (post.spec_active() matches Some(p) && p.0 == q.0 && p.1.kv == q.1.kv && (
                p.1.assets.spec_get(name) matches Some(rec) && rec.id@ == name && rec.name@ == name
                    && rec.mime_type@ == guessed_mime_of(name)) && (forall|x: Seq<char>|
                    x != name ==> #[trigger] p.1.assets.spec_get(x) == q.1.assets.spec_get(x)))
            },
        }
    }
}

/// What `boot` builds out of the durable state: nothing active when the
/// registry remembers no last workspace, the remembered workspace loaded as
/// `load` would load it otherwise; records and blobs are taken over as they
/// are.
pub open spec fn boot_post(d: Durable, assets_dir: String, m: Manager) -> bool {
    &&& m.spec_assets_dir() == assets_dir@
    &&& m.records_seq() == d.registry.records@
    &&& m.blobs_seq() == d.blobs@
    &&& match d.registry.settings.spec_get(spec_last_active_key()) {
        None => {
            &&& m.spec_active() is None
            &&& m.stores_seq() == d.stores@
            &&& m.spec_durable().registry.settings == d.registry.settings
        },
        Some(last) => {
            &&& m.spec_active_id() == Some(last@)
            &&& match d.stores.spec_get(last@) {
                Some(s) => m.spec_store_of(last@) == Some(s),
                None => m.spec_store_of(last@) matches Some(s) && s.is_init(),
            }
            &&& forall|x: Seq<char>|
                x != last@ ==> #[trigger] m.spec_store_of(x) == d.stores.spec_get(x)
            &&& (m.spec_setting(spec_last_active_key()) matches Some(v) && v@ == last@)
            &&& forall|k: Seq<char>|
                k != spec_last_active_key() ==> #[trigger] m.spec_setting(k)
                    == d.registry.settings.spec_get(k)
        },
    }
}

/// What `shutdown` hands back: the registry and blobs as they were, and the
/// store directory with the active store, if any, parked under its id.
pub open spec fn shutdown_post(pre: Manager, d: Durable) -> bool {
    &&& d.registry == pre.spec_durable().registry
    &&& d.blobs == pre.spec_durable().blobs
    &&& match pre.spec_active() {
        None => d.stores == pre.spec_durable().stores,
        Some(p) => {
            &&& d.stores.spec_get(p.0@) == Some(p.1)
            &&& forall|x: Seq<char>|
                x != p.0@ ==> #[trigger] d.stores.spec_get(x) == pre.spec_durable(
                ).stores.spec_get(x)
        },
    }
}

/// A verified byte-for-byte copy of a blob.
fn copy_bytes(src: &Vec<u8>) -> (r: Vec<u8>)
    ensures
        r@ == src@,
{
    let n = src.len();
    let mut out: Vec<u8> = Vec::new();
    let mut i: usize = 0;
    while i < n
        invariant
            i <= n,
            n == src@.len(),
            out@.len() == i,
            forall|j: int| 0 <= j < i ==> #[trigger] out@[j] == src@[j],
        decreases n - i,
    {
        out.push(src[i]);
        i = i + 1;
    }
    proof {
        assert(out@ =~= src@);
    }
    out
}

impl Manager {
    /// Switch the active workspace slot to `id`: park whatever store is open,
    /// open the store for `id` (creating it empty on the first load of that
    /// id), and persist `id` as the last active workspace so a future process
    /// start can recover it. The open itself cannot fail here, so the switch
    /// always succeeds.
    pub fn load(&mut self, id: &String) -> (r: bool)
        requires
            old(self).wf(),
        ensures
            final(self).wf(),
            r == true,
            load_post(*old(self), *final(self), *id),
    {
        match self.active.take() {
            Some(p) => {
                self.durable.park_store(p.0, p.1);
            },
            None => {},
        }
        let st = match self.durable.take_store(id) {
            Some(s) => s,
            None => WorkspaceStore::new(),
        };
        self.active = Some((id.clone(), st));
        self.durable.registry.put_setting("last_project_id".to_owned(), id.clone());
        true
    }

    /// The id and display name of the active workspace, if any. A workspace
    /// whose registry record has been deleted can still be active; it then
    /// reads as "Unknown".
    pub fn get_active(&self) -> (r: Option<(String, String)>)
        ensures
            match r {
                Some(p) => self.spec_active_id() == Some(p.0@) && (match self.spec_record(p.0@) {
                    Some(rec) => p.1@ == rec.name@,
                    None => p.1@ == "Unknown"@,
                }),
                None => self.spec_active_id() is None,
            },
    {
        match &self.active {
            Some(p) => {
                let id = p.0.clone();
                let name = match self.durable.registry.records.get(&id) {
                    Some(rec) => rec.name.clone(),
                    None => "Unknown".to_owned(),
                };
                Some((id, name))
            },
            None => None,
        }
    }

    /// Read `key` from the active workspace. `NoActiveWorkspace` when nothing
    /// is loaded, `NotFound` when the active workspace has no such key.
    pub fn get_value(&self, key: &String) -> (r: Result<String, StoreError>)
        ensures
            match r {
                Ok(v) => self.spec_value(key@) == Some(v),
                Err(e) => (e == StoreError::NoActiveWorkspace && self.spec_active_id() is None) || (
                e == StoreError::NotFound && self.spec_active_id() is Some && self.spec_value(key@)
                    is None),
            },
    {
        match &self.active {
            Some(p) => match p.1.get_value(key) {
                Some(v) => Ok(v.clone()),
                None => Err(StoreError::NotFound),
            },
            None => Err(StoreError::NoActiveWorkspace),
        }
    }

    /// Write `key` into the active workspace, last-writer-wins.
    pub fn put_value(&mut self, key: String, value: String) -> (r: Result<(), StoreError>)
        requires
            old(self).wf(),
        ensures
            final(self).wf(),
            put_value_post(*old(self), *final(self), key, value, r),
    {
        match self.active.take() {
            Some(p) => {
                let (id, mut st) = p;
                st.put_value(key, value);
                self.active = Some((id, st));
                Ok(())
            },
            None => Err(StoreError::NoActiveWorkspace),
        }
    }

    /// All workspace records, newest first.
    pub fn list_workspaces(&self) -> (r: Vec<WorkspaceRecord>)
        ensures
            r@.len() == self.records_seq().len(),
            forall|i: int|
                0 <= i < r@.len() ==> #[trigger] r@[i] == self.records_seq()[self.records_seq().len()
                    - 1 - i].1,
    {
        self.durable.registry.list_workspaces()
    }

    /// The value of a global setting, if it was ever written.
    pub fn get_setting(&self, key: &String) -> (r: Option<String>)
        ensures
            match r {
                Some(v) => self.spec_setting(key@) == Some(v),
                None => self.spec_setting(key@) is None,
            },
    {
        match self.durable.registry.get_setting(key) {
            Some(v) => Some(v.clone()),
            None => None,
        }
    }

    /// Boot a manager over the given durable state, as a process start does:
    /// nothing is active at first; then, when the registry remembers a last
    /// active workspace, that workspace is loaded silently. The load cannot
    /// fail here (a missing store is created empty), so recovery is total.
    pub fn boot(d: Durable, assets_dir: String) -> (m: Manager)
        requires
            d.wf(),
        ensures
            m.wf(),
            boot_post(d, assets_dir, m),
    {
        let mut m = Manager { durable: d, active: None, assets_dir };
        let key = "last_project_id".to_owned();
        let last = match m.durable.registry.get_setting(&key) {
            Some(v) => Some(v.clone()),
            None => None,
        };
        match last {
            Some(id) => {
                let _ = m.load(&id);
            },
            None => {},
        }
        m
    }

    /// Close the active workspace slot and hand the durable state back, as a
    /// clean shutdown does: the open store, if any, is parked with its
    /// workspace before the state is released.
    pub fn shutdown(self) -> (d: Durable)
        requires
            self.wf(),
        ensures
            d.wf(),
            shutdown_post(self, d),
    {
        let Manager { durable: mut d, active, assets_dir: _ } = self;
        match active {
            Some(p) => {
                d.park_store(p.0, p.1);
            },
            None => {},
        }
        d
    }

    /// Create a workspace: draw a fresh id and timestamp, persist the record,
    /// and make the new workspace active immediately. The freshness of the
    /// drawn id is checked against the registry; a clash surfaces as the
    /// storage error the underlying key constraint would raise, and can only
    /// happen when some existing record already sits under a 36-character
    /// key — on a registry without one (an empty registry in particular),
    /// creation is owed and promised.
    pub fn create(&mut self, name: String) -> (r: Result<WorkspaceRecord, StoreError>)
        requires
            old(self).wf(),
        ensures
            final(self).wf(),
            match r {
                Ok(rec) => rec.id@.len() == 36 && create_post(*old(self), *final(self), name, rec),
                Err(e) => e == StoreError::StorageIo && *final(self) == *old(self)
                    && (exists|j: int|
                    0 <= j < old(self).records_seq().len()
                        && (#[trigger] old(self).records_seq()[j]).0@.len() == 36),
            },
    {
        let id = fresh_workspace_id();
        let created_at = current_timestamp();
        let ghost idv = id@;
        let r = self.create_with_id(name, id, created_at);
        proof {
            if r is Err {
                lemma_lookup_some_index(old(self).records_seq(), idv);
                let j = choose|j: int|
                    0 <= j < old(self).records_seq().len() && old(self).records_seq()[j].0@ == idv;
                assert((old(self).records_seq()[j]).0@.len() == 36);
            }
        }
        r
    }

    /// Create a workspace under a caller-supplied id and timestamp: persist
    /// the record, then switch to the new workspace. Refused exactly when the
    /// id already names a record.
    pub fn create_with_id(&mut self, name: String, id: String, created_at: String) -> (r: Result<
        WorkspaceRecord,
        StoreError,
    >)
        requires
            old(self).wf(),
        ensures
            final(self).wf(),
            match r {
                Ok(rec) => rec.id == id && rec.created_at == created_at && create_post(
                    *old(self),
                    *final(self),
                    name,
                    rec,
                ),
                Err(e) => e == StoreError::StorageIo && old(self).spec_record(id@) is Some
                    && *final(self) == *old(self),
            },
    {
        let rec = match self.durable.registry.create_record(id, name, created_at) {
            Ok(rec) => rec,
            Err(e) => {
                return Err(e);
            },
        };
        let ghost mid = *self;
        let _ = self.load(&rec.id);
        proof {
            assert forall|x: Seq<char>|
                x != rec.id@ implies self.spec_record(x) == old(self).spec_record(x) by {
                assert(mid.spec_record(x) == old(self).spec_record(x));
                assert(self.records_seq() == mid.records_seq());
            }
        }
        Ok(rec)
    }

    /// Delete a workspace: remove its registry record and its store.
    /// Idempotent: deleting an unknown id changes nothing. Deleting the
    /// currently active workspace clears the active slot rather than leaving
    /// an open handle to a removed store, so afterwards no workspace is
    /// active.
    pub fn delete(&mut self, id: &String)
        requires
            old(self).wf(),
        ensures
            final(self).wf(),
            delete_post(*old(self), *final(self), *id),
    {
        self.durable.registry.delete_record(id);
        let clear = match &self.active {
            Some(p) => p.0 == *id,
            None => false,
        };
        if clear {
            self.active = None;
        }
        let _ = self.durable.take_store(id);
    }

    /// All asset records of the active workspace, in table order; an empty
    /// listing when no workspace is active.
    pub fn list_assets(&self) -> (r: Vec<AssetRecord>)
        ensures
            match self.spec_active() {
                Some(p) => r@.len() == p.1.assets@.len() && (forall|i: int|
                    0 <= i < r@.len() ==> #[trigger] r@[i] == p.1.assets@[i].1),
                None => r@.len() == 0,
            },
    {
        match &self.active {
            Some(p) => p.1.list_assets(),
            None => Vec::new(),
        }
    }

    /// Save an asset: write the blob under the resolved file name and file a
    /// record for it in the active workspace. The declared MIME type is
    /// trusted as given. The blob is written before the catalog is consulted:
    /// with no active workspace the request fails but the blob stays written,
    /// ready for a later save of the record.
    pub fn put_asset(&mut self, name: &String, bytes: Vec<u8>, mime: String) -> (r: Result<
        (),
        StoreError,
    >)
        requires
            old(self).wf(),
        ensures
            final(self).wf(),
            put_asset_post(*old(self), *final(self), *name, bytes, mime, r),
    {
        let safe = base_name(name.as_str());
        if unusable_name(safe.as_str()) {
            return Err(StoreError::InvalidInput);
        }
        let safe2 = safe.clone();
        self.durable.blobs.put(safe, bytes);
        match self.active.take() {
            Some(p) => {
                let (id, mut st) = p;
                let rec = AssetRecord { id: safe2.clone(), name: safe2, mime_type: mime };
                st.put_asset_record(rec);
                self.active = Some((id, st));
                Ok(())
            },
            None => Err(StoreError::NoActiveWorkspace),
        }
    }

    /// Read an asset blob back by name. Needs no active workspace: blobs are
    /// shared across workspaces and survive their records.
    pub fn get_asset_bytes(&self, name: &String) -> (r: Result<Vec<u8>, StoreError>)
        ensures
            match r {
                Ok(b) => spec_base_name(name@).len() > 0 && (self.spec_blob(spec_base_name(name@))
                    matches Some(v) && v@ == b@),
                Err(e) => e == StoreError::NotFound && (spec_base_name(name@).len() == 0
                    || self.spec_blob(spec_base_name(name@)) is None),
            },
    {
        let safe = base_name(name.as_str());
        if safe.as_str().unicode_len() == 0 {
            return Err(StoreError::NotFound);
        }
        match self.durable.blobs.get(&safe) {
            Some(b) => Ok(copy_bytes(b)),
            None => Err(StoreError::NotFound),
        }
    }

    /// Remove an asset's record from the active workspace's catalog. The blob
    /// is deliberately retained for reuse across workspaces; only an explicit
    /// overwrite ever replaces it. Idempotent on the catalog.
    pub fn delete_asset_record(&mut self, name: &String) -> (r: Result<(), StoreError>)
        requires
            old(self).wf(),
        ensures
            final(self).wf(),
            delete_asset_post(*old(self), *final(self), *name, r),
    {
        match self.active.take() {
            Some(p) => {
                let (id, mut st) = p;
                st.delete_asset_record(name);
                self.active = Some((id, st));
                Ok(())
            },
            None => Err(StoreError::NoActiveWorkspace),
        }
    }

    /// Import a file into the asset directory and file a record for it under
    /// its base name. A source already inside the asset directory is not
    /// copied (and must already exist as a blob); any other source must come
    /// with its bytes, which are copied in, overwriting a blob of the same
    /// name. The record's MIME type is guessed from the name's extension.
    /// The copy happens before the catalog is consulted: with no active
    /// workspace the request fails but a copied blob stays written.
    pub fn import_asset(&mut self, path: &String, source: Option<Vec<u8>>) -> (r: Result<
        String,
        StoreError,
    >)
        requires
            old(self).wf(),
        ensures
            final(self).wf(),
            import_post(*old(self), *final(self), *path, source, r),
    {
        let name = base_name(path.as_str());
        if unusable_name(name.as_str()) {
            return Err(StoreError::InvalidInput);
        }
        let dir = dir_name(path.as_str());
        let inside = dir == self.assets_dir;
        if inside {
            if self.durable.blobs.get(&name).is_none() {
                return Err(StoreError::NotFound);
            }
        } else {
            match source {
                Some(bytes) => {
                    let key = name.clone();
                    self.durable.blobs.put(key, bytes);
                },
                None => {
                    return Err(StoreError::NotFound);
                },
            }
        }
        let mime = guess_mime(name.as_str());
        match self.active.take() {
            Some(p) => {
                let (id, mut st) = p;
                let rec = AssetRecord { id: name.clone(), name: name.clone(), mime_type: mime };
                st.put_asset_record(rec);
                self.active = Some((id, st));
                Ok(name)
            },
            None => Err(StoreError::NoActiveWorkspace),
        }
    }

    /// Last-writer-wins write of a global setting (monitor configuration and
    /// the like). Touches nothing but the settings table.
    pub fn put_setting(&mut self, key: String, value: String)
        requires
            old(self).wf(),
        ensures
            final(self).wf(),
            final(self).spec_setting(key@) == Some(value),
            forall|k2: Seq<char>|
                k2 != key@ ==> #[trigger] final(self).spec_setting(k2) == old(self).spec_setting(
                    k2,
                ),
            final(self).records_seq() == old(self).records_seq(),
            final(self).stores_seq() == old(self).stores_seq(),
            final(self).blobs_seq() == old(self).blobs_seq(),
            final(self).spec_active() == old(self).spec_active(),
            final(self).spec_assets_dir() == old(self).spec_assets_dir(),
    {
        self.durable.registry.put_setting(key, value);
    }
}

} // verus!
