use emap_core::error::StoreError;
use emap_core::manager::{Durable, Manager};
use emap_core::mime::read_mime;
use emap_core::paths::{base_name, dir_name};

fn manager_with_workspace() -> Manager {
    let mut m = Manager::boot(Durable::new(), "assets".to_string());
    m.create("P1".to_string()).expect("create P1");
    m
}

#[test]
fn asset_round_trip() {
    let mut m = manager_with_workspace();
    let bytes = vec![1u8, 2, 3, 4, 5];
    m.put_asset(&"a.png".to_string(), bytes.clone(), "image/png".to_string())
        .expect("save asset");
    assert_eq!(m.get_asset_bytes(&"a.png".to_string()).ok(), Some(bytes.clone()));
    let listed = m.list_assets();
    assert_eq!(listed.len(), 1);
    assert_eq!(listed[0].id, "a.png");
    assert_eq!(listed[0].name, "a.png");
    assert_eq!(listed[0].mime_type, "image/png");
    // deleting the record hides it from the catalog but retains the blob
    m.delete_asset_record(&"a.png".to_string()).expect("delete record");
    assert!(m.list_assets().is_empty());
    assert_eq!(m.get_asset_bytes(&"a.png".to_string()).ok(), Some(bytes));
}

#[test]
fn asset_overwrite_replaces_bytes() {
    let mut m = manager_with_workspace();
    m.put_asset(&"a.bin".to_string(), vec![1u8], "application/octet-stream".to_string())
        .expect("first save");
    m.put_asset(&"a.bin".to_string(), vec![2u8, 3], "application/octet-stream".to_string())
        .expect("second save");
    assert_eq!(m.get_asset_bytes(&"a.bin".to_string()).ok(), Some(vec![2u8, 3]));
    assert_eq!(m.list_assets().len(), 1);
}

#[test]
fn asset_name_is_sanitized_to_base_name() {
    let mut m = manager_with_workspace();
    m.put_asset(&"../secrets/b.png".to_string(), vec![9u8], "image/png".to_string())
        .expect("save under base name");
    assert_eq!(m.get_asset_bytes(&"b.png".to_string()).ok(), Some(vec![9u8]));
    let listed = m.list_assets();
    assert_eq!(listed.len(), 1);
    assert_eq!(listed[0].id, "b.png");
}

#[test]
fn asset_empty_name_is_rejected() {
    let mut m = manager_with_workspace();
    let r = m.put_asset(&"dir/".to_string(), vec![1u8], "image/png".to_string());
    assert_eq!(r.err(), Some(StoreError::InvalidInput));
}

#[test]
fn asset_dot_names_are_rejected() {
    let mut m = manager_with_workspace();
    assert_eq!(
        m.put_asset(&".".to_string(), vec![1u8], "image/png".to_string()).err(),
        Some(StoreError::InvalidInput)
    );
    assert_eq!(
        m.put_asset(&"a/..".to_string(), vec![1u8], "image/png".to_string()).err(),
        Some(StoreError::InvalidInput)
    );
    assert_eq!(
        m.import_asset(&"/tmp/..".to_string(), Some(vec![1u8])).err(),
        Some(StoreError::InvalidInput)
    );
    assert!(m.list_assets().is_empty());
    // nothing was written for any of them
    let d = m.shutdown();
    assert_eq!(d.blobs.len(), 0);
}

#[test]
fn create_on_empty_registry_succeeds() {
    let mut m = Manager::boot(Durable::new(), "assets".to_string());
    // with no records at all there is nothing a drawn id could clash with
    assert!(m.create("first".to_string()).is_ok());
}

#[test]
fn asset_save_without_workspace_still_writes_blob() {
    let mut m = Manager::boot(Durable::new(), "assets".to_string());
    let r = m.put_asset(&"c.png".to_string(), vec![7u8], "image/png".to_string());
    assert_eq!(r.err(), Some(StoreError::NoActiveWorkspace));
    // the blob was written before the catalog was consulted
    assert_eq!(m.get_asset_bytes(&"c.png".to_string()).ok(), Some(vec![7u8]));
}

#[test]
fn missing_asset_reads_not_found() {
    let m = manager_with_workspace();
    assert_eq!(
        m.get_asset_bytes(&"nowhere.png".to_string()).err(),
        Some(StoreError::NotFound)
    );
}

#[test]
fn delete_asset_record_is_idempotent() {
    let mut m = manager_with_workspace();
    m.put_asset(&"a.png".to_string(), vec![1u8], "image/png".to_string()).expect("save");
    m.delete_asset_record(&"a.png".to_string()).expect("first delete");
    m.delete_asset_record(&"a.png".to_string()).expect("second delete");
    assert!(m.list_assets().is_empty());
}

#[test]
fn import_inside_assets_dir_skips_copy() {
    let mut m = manager_with_workspace();
    m.put_asset(&"b.png".to_string(), vec![1u8, 2], "image/png".to_string()).expect("seed");
    let imported = m.import_asset(&"assets/b.png".to_string(), None).expect("import");
    assert_eq!(imported, "b.png");
    assert_eq!(m.get_asset_bytes(&"b.png".to_string()).ok(), Some(vec![1u8, 2]));
    // exactly one blob: nothing was duplicated
    let d = m.shutdown();
    assert_eq!(d.blobs.len(), 1);
}

#[test]
fn import_inside_assets_dir_missing_blob_fails() {
    let mut m = manager_with_workspace();
    let r = m.import_asset(&"assets/ghost.png".to_string(), None);
    assert_eq!(r.err(), Some(StoreError::NotFound));
    let d = m.shutdown();
    assert_eq!(d.blobs.len(), 0);
}

#[test]
fn import_external_creates_one_blob() {
    let mut m = manager_with_workspace();
    let imported = m
        .import_asset(&"/home/user/pics/photo.png".to_string(), Some(vec![5u8, 6, 7]))
        .expect("import");
    assert_eq!(imported, "photo.png");
    assert_eq!(m.get_asset_bytes(&"photo.png".to_string()).ok(), Some(vec![5u8, 6, 7]));
    // the record carries the guessed MIME type of the imported name
    let listed = m.list_assets();
    assert_eq!(listed.len(), 1);
    assert_eq!(listed[0].id, "photo.png");
    assert_eq!(listed[0].mime_type, "image/png");
    let d = m.shutdown();
    assert_eq!(d.blobs.len(), 1);
}

#[test]
fn import_external_missing_source_fails() {
    let mut m = manager_with_workspace();
    let r = m.import_asset(&"/elsewhere/x.png".to_string(), None);
    assert_eq!(r.err(), Some(StoreError::NotFound));
}

#[test]
fn read_mime_by_extension() {
    assert_eq!(read_mime("a.png"), "image/png");
    assert_eq!(read_mime("a.jpg"), "image/jpeg");
    assert_eq!(read_mime("a.jpeg"), "image/jpeg");
    assert_eq!(read_mime("a.mp4"), "video/mp4");
    assert_eq!(read_mime("a.webm"), "video/webm");
    assert_eq!(read_mime("a.txt"), "application/octet-stream");
    assert_eq!(read_mime("noext"), "application/octet-stream");
}

#[test]
fn path_helpers_split_as_documented() {
    assert_eq!(base_name("a/b/c.png"), "c.png");
    assert_eq!(base_name("c.png"), "c.png");
    assert_eq!(base_name("dir/"), "");
    assert_eq!(dir_name("assets/a.png"), "assets");
    assert_eq!(dir_name("a.png"), "");
    assert_eq!(dir_name("/abs/path/f.mp4"), "/abs/path");
}
