use vstd::prelude::*;

verus! {

/// A workspace as the registry catalogs it: an opaque unique id, a display
/// name, and the creation timestamp. Immutable once created, except for
/// deletion of the whole record.
pub struct WorkspaceRecord {
    pub id: String,
    pub name: String,
    pub created_at: String,
}

impl Clone for WorkspaceRecord {
    fn clone(&self) -> (r: Self)
        ensures
            r == *self,
    {
        WorkspaceRecord {
            id: self.id.clone(),
            name: self.name.clone(),
            created_at: self.created_at.clone(),
        }
    }
}

/// Catalog metadata for one asset inside a workspace: the id doubles as the
/// blob's file name, and the MIME type is whatever was recorded when the
/// asset was saved or imported. The id is unique within a workspace
/// (overwrite on conflict).
pub struct AssetRecord {
    pub id: String,
    pub name: String,
    pub mime_type: String,
}

impl Clone for AssetRecord {
    fn clone(&self) -> (r: Self)
        ensures
            r == *self,
    {
        AssetRecord {
            id: self.id.clone(),
            name: self.name.clone(),
            mime_type: self.mime_type.clone(),
        }
    }
}

} // verus!
