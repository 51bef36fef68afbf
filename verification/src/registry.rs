use crate::error::StoreError;
use crate::records::WorkspaceRecord;
use crate::table::Table;
use vstd::prelude::*;

verus! {

/// The durable catalog of all workspaces: one table of workspace records
/// keyed by id, and one table of global settings with last-writer-wins
/// semantics (last-active workspace id, monitor configuration, and the like).
pub struct Registry {
    pub records: Table<WorkspaceRecord>,
    pub settings: Table<String>,
}

impl Registry {
    /// Both tables have unique keys, and every record is filed under its own
    /// id; ids are therefore pairwise distinct.
    pub open spec fn wf(&self) -> bool {
        &&& self.records.wf()
        &&& self.settings.wf()
        &&& forall|j: int|
            0 <= j < self.records@.len() ==> #[trigger] self.records@[j].1.id@
                == self.records@[j].0@
    }

    pub fn new() -> (r: Self)
        ensures
            r.wf(),
            r.records@.len() == 0,
            r.settings@.len() == 0,
    {
        Registry { records: Table::new(), settings: Table::new() }
    }

    /// All workspace records, newest first. Records are kept in creation
    /// order, so creation-time-descending is the reverse of table order.
    pub fn list_workspaces(&self) -> (r: Vec<WorkspaceRecord>)
        ensures
            r@.len() == self.records@.len(),
            forall|i: int|
                0 <= i < r@.len() ==> #[trigger] r@[i] == self.records@[self.records@.len() - 1
                    - i].1,
    {
        let n = self.records.len();
        let mut out: Vec<WorkspaceRecord> = Vec::new();
        let mut i: usize = 0;
        while i < n
            invariant
                i <= n,
                n == self.records@.len(),
                out@.len() == i,
                forall|j: int| 0 <= j < i ==> #[trigger] out@[j] == self.records@[n - 1 - j].1,
            decreases n - i,
        {
            let e = self.records.at(n - 1 - i);
            out.push(e.1.clone());
            i = i + 1;
        }
        out
    }

    /// Persist a new workspace record under the given fresh id. The id is
    /// drawn by the caller; a clash with an existing record is refused as a
    /// storage error, exactly as the underlying table's key constraint would
    /// refuse it.
    pub fn create_record(&mut self, id: String, name: String, created_at: String) -> (r: Result<
        WorkspaceRecord,
        StoreError,
    >)
        requires
            old(self).wf(),
        ensures
            final(self).wf(),
            final(self).settings == old(self).settings,
            match r {
                Ok(rec) => {
                    &&& !old(self).records.contains_key(id@)
                    &&& rec.id == id
                    &&& rec.name == name
                    &&& rec.created_at == created_at
                    &&& final(self).records@ == old(self).records@.push((id, rec))
                    &&& final(self).records.spec_get(id@) == Some(rec)
                    &&& forall|k2: Seq<char>|
                        k2 != id@ ==> #[trigger] final(self).records.spec_get(k2) == old(
                            self,
                        ).records.spec_get(k2)
                },
                Err(e) => {
                    &&& e == StoreError::StorageIo
                    &&& old(self).records.contains_key(id@)
                    &&& final(self).records == old(self).records
                },
            },
    {
        if self.records.get(&id).is_some() {
            return Err(StoreError::StorageIo);
        }
        let rec = WorkspaceRecord { id: id.clone(), name, created_at };
        let ret = rec.clone();
        self.records.put(id, rec);
        proof {
            assert(ret == rec);
            assert forall|j: int|
                0 <= j < self.records@.len() implies #[trigger] self.records@[j].1.id@
                == self.records@[j].0@ by {
                if j < old(self).records@.len() {
                    assert(self.records@[j] == old(self).records@[j]);
                }
            }
        }
        Ok(ret)
    }

    /// Remove the record filed under `id`; idempotent.
    pub fn delete_record(&mut self, id: &String)
        requires
            old(self).wf(),
        ensures
            final(self).wf(),
            final(self).settings == old(self).settings,
            final(self).records.spec_get(id@) is None,
            forall|k2: Seq<char>|
                k2 != id@ ==> #[trigger] final(self).records.spec_get(k2) == old(
                    self,
                ).records.spec_get(k2),
            !old(self).records.contains_key(id@) ==> final(self).records@ == old(self).records@,
    {
        self.records.remove(id);
        proof {
            assert forall|j: int|
                0 <= j < self.records@.len() implies #[trigger] self.records@[j].1.id@
                == self.records@[j].0@ by {
                if old(self).records.contains_key(id@) {
                    let i = choose|i: int|
                        0 <= i < old(self).records@.len() && old(self).records@[i].0@ == id@
                            && self.records@ == old(self).records@.remove(i);
                    let oj: int = if j < i {
                        j
                    } else {
                        j + 1
                    };
                    assert(self.records@[j] == old(self).records@[oj]);
                }
            }
        }
    }

    /// The value of a global setting, if it was ever written.
    pub fn get_setting(&self, key: &String) -> (r: Option<&String>)
        ensures
            match r {
                Some(v) => self.settings.spec_get(key@) == Some(*v),
                None => self.settings.spec_get(key@) is None,
            },
    {
        self.settings.get(key)
    }

    /// Last-writer-wins write of a global setting.
    pub fn put_setting(&mut self, key: String, value: String)
        requires
            old(self).wf(),
        ensures
            final(self).wf(),
            final(self).records == old(self).records,
            final(self).settings.spec_get(key@) == Some(value),
            forall|k2: Seq<char>|
                k2 != key@ ==> #[trigger] final(self).settings.spec_get(k2) == old(
                    self,
                ).settings.spec_get(k2),
    {
        self.settings.put(key, value);
    }
}

} // verus!
