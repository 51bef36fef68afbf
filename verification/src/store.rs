use crate::records::AssetRecord;
use crate::table::Table;
use vstd::prelude::*;

verus! {

/// The per-workspace durable store: one key-value table and one asset
/// metadata table. `new` stands for idempotent schema creation: a workspace's
/// store is created lazily, empty, on its first load.
pub struct WorkspaceStore {
    pub kv: Table<String>,
    pub assets: Table<AssetRecord>,
}

impl WorkspaceStore {
    /// Both tables have unique keys, and every asset record is filed under
    /// its own id.
    pub open spec fn wf(&self) -> bool {
        &&& self.kv.wf()
        &&& self.assets.wf()
        &&& forall|j: int|
            0 <= j < self.assets@.len() ==> #[trigger] self.assets@[j].1.id@
                == self.assets@[j].0@
    }

    /// A freshly created schema: both tables empty.
    pub open spec fn is_init(&self) -> bool {
        self.kv@.len() == 0 && self.assets@.len() == 0
    }

    pub fn new() -> (s: Self)
        ensures
            s.wf(),
            s.is_init(),
    {
        WorkspaceStore { kv: Table::new(), assets: Table::new() }
    }

    /// The value stored under `key` in this workspace, scoped strictly to
    /// this store.
    pub fn get_value(&self, key: &String) -> (r: Option<&String>)
        ensures
            match r {
                Some(v) => self.kv.spec_get(key@) == Some(*v),
                None => self.kv.spec_get(key@) is None,
            },
    {
        self.kv.get(key)
    }

    /// Last-writer-wins save of `key`.
    pub fn put_value(&mut self, key: String, value: String)
        requires
            old(self).wf(),
        ensures
            final(self).wf(),
            final(self).kv.spec_get(key@) == Some(value),
            forall|k2: Seq<char>|
                k2 != key@ ==> #[trigger] final(self).kv.spec_get(k2) == old(self).kv.spec_get(
                    k2,
                ),
            final(self).assets == old(self).assets,
    {
        self.kv.put(key, value);
    }

    /// All asset records, in table order (unspecified but stable).
    pub fn list_assets(&self) -> (r: Vec<AssetRecord>)
        ensures
            r@.len() == self.assets@.len(),
            forall|i: int| 0 <= i < r@.len() ==> #[trigger] r@[i] == self.assets@[i].1,
    {
        let n = self.assets.len();
        let mut out: Vec<AssetRecord> = Vec::new();
        let mut i: usize = 0;
        while i < n
            invariant
                i <= n,
                n == self.assets@.len(),
                out@.len() == i,
                forall|j: int| 0 <= j < i ==> #[trigger] out@[j] == self.assets@[j].1,
            decreases n - i,
        {
            let e = self.assets.at(i);
            out.push(e.1.clone());
            i = i + 1;
        }
        out
    }

    /// Insert-or-replace the record filed under `rec.id`.
    pub fn put_asset_record(&mut self, rec: AssetRecord)
        requires
            old(self).wf(),
        ensures
            final(self).wf(),
            final(self).assets.spec_get(rec.id@) == Some(rec),
            forall|k2: Seq<char>|
                k2 != rec.id@ ==> #[trigger] final(self).assets.spec_get(k2) == old(
                    self,
                ).assets.spec_get(k2),
            final(self).kv == old(self).kv,
    {
        let key = rec.id.clone();
        self.assets.put(key, rec);
        proof {
            assert forall|j: int|
                0 <= j < self.assets@.len() implies #[trigger] self.assets@[j].1.id@
                == self.assets@[j].0@ by {
                if old(self).assets.contains_key(rec.id@) {
                    let i = choose|i: int|
                        0 <= i < old(self).assets@.len() && old(self).assets@[i].0@ == rec.id@
                            && self.assets@ == old(self).assets@.update(i, (key, rec));
                    if j != i {
                        assert(self.assets@[j] == old(self).assets@[j]);
                    }
                } else {
                    if j < old(self).assets@.len() {
                        assert(self.assets@[j] == old(self).assets@[j]);
                    }
                }
            }
        }
    }

    /// Remove the record filed under `id`; idempotent, and never touches the
    /// key-value table or any blob.
    pub fn delete_asset_record(&mut self, id: &String)
        requires
            old(self).wf(),
        ensures
            final(self).wf(),
            final(self).assets.spec_get(id@) is None,
            forall|k2: Seq<char>|
                k2 != id@ ==> #[trigger] final(self).assets.spec_get(k2) == old(
                    self,
                ).assets.spec_get(k2),
            final(self).kv == old(self).kv,
            !old(self).assets.contains_key(id@) ==> final(self).assets@ == old(self).assets@,
    {
        let _ = self.assets.take(id);
        proof {
            assert forall|j: int|
                0 <= j < self.assets@.len() implies #[trigger] self.assets@[j].1.id@
                == self.assets@[j].0@ by {
                if old(self).assets.contains_key(id@) {
                    let i = choose|i: int|
                        0 <= i < old(self).assets@.len() && old(self).assets@[i].0@ == id@
                            && self.assets@ == old(self).assets@.remove(i);
                    let oj: int = if j < i {
                        j
                    } else {
                        j + 1
                    };
                    assert(self.assets@[j] == old(self).assets@[oj]);
                }
            }
        }
    }
}

} // verus!
