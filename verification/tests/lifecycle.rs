use emap_core::error::StoreError;
use emap_core::manager::{Durable, Manager};

fn fresh_manager() -> Manager {
    Manager::boot(Durable::new(), "assets".to_string())
}

#[test]
fn create_ids_are_distinct() {
    let mut m = fresh_manager();
    let r1 = m.create("P1".to_string()).expect("create P1");
    let r2 = m.create("P2".to_string()).expect("create P2");
    let r3 = m.create("P3".to_string()).expect("create P3");
    assert_ne!(r1.id, r2.id);
    assert_ne!(r1.id, r3.id);
    assert_ne!(r2.id, r3.id);
    assert_eq!(r1.id.len(), 36);
    assert!(!r1.created_at.is_empty());
}

#[test]
fn create_activates_immediately() {
    let mut m = fresh_manager();
    let rec = m.create("P1".to_string()).expect("create P1");
    let active = m.get_active().expect("a workspace is active");
    assert_eq!(active.0, rec.id);
    assert_eq!(active.1, "P1");
}

#[test]
fn create_with_duplicate_id_is_refused() {
    let mut m = fresh_manager();
    let r = m.create_with_id("first".to_string(), "id-1".to_string(), "t0".to_string());
    assert!(r.is_ok());
    let r2 = m.create_with_id("second".to_string(), "id-1".to_string(), "t1".to_string());
    assert_eq!(r2.err(), Some(StoreError::StorageIo));
    // the first record is untouched
    let list = m.list_workspaces();
    assert_eq!(list.len(), 1);
    assert_eq!(list[0].name, "first");
}

#[test]
fn list_workspaces_newest_first() {
    let mut m = fresh_manager();
    m.create("A".to_string()).expect("create A");
    m.create("B".to_string()).expect("create B");
    m.create("C".to_string()).expect("create C");
    let list = m.list_workspaces();
    assert_eq!(list.len(), 3);
    assert_eq!(list[0].name, "C");
    assert_eq!(list[1].name, "B");
    assert_eq!(list[2].name, "A");
}

#[test]
fn kv_isolation_between_workspaces() {
    let mut m = fresh_manager();
    let a = m.create("A".to_string()).expect("create A");
    let b = m.create("B".to_string()).expect("create B");
    // B is active now; switch to A and write
    assert!(m.load(&a.id));
    m.put_value("k".to_string(), "v1".to_string()).expect("put under A");
    // under B the key is invisible
    assert!(m.load(&b.id));
    assert_eq!(m.get_value(&"k".to_string()).err(), Some(StoreError::NotFound));
    // back under A it reads v1
    assert!(m.load(&a.id));
    assert_eq!(m.get_value(&"k".to_string()).ok(), Some("v1".to_string()));
}

#[test]
fn kv_last_writer_wins() {
    let mut m = fresh_manager();
    m.create("A".to_string()).expect("create A");
    m.put_value("k".to_string(), "v1".to_string()).expect("first write");
    m.put_value("k".to_string(), "v2".to_string()).expect("second write");
    assert_eq!(m.get_value(&"k".to_string()).ok(), Some("v2".to_string()));
}

#[test]
fn kv_without_active_workspace() {
    let mut m = fresh_manager();
    assert_eq!(
        m.put_value("k".to_string(), "v".to_string()).err(),
        Some(StoreError::NoActiveWorkspace)
    );
    assert_eq!(m.get_value(&"k".to_string()).err(), Some(StoreError::NoActiveWorkspace));
}

#[test]
fn delete_unknown_id_is_harmless() {
    let mut m = fresh_manager();
    m.delete(&"no-such-id".to_string());
    m.delete(&"no-such-id".to_string());
    assert!(m.list_workspaces().is_empty());
}

#[test]
fn delete_twice_is_safe() {
    let mut m = fresh_manager();
    let rec = m.create("gone".to_string()).expect("create");
    m.delete(&rec.id);
    m.delete(&rec.id);
    assert!(m.list_workspaces().is_empty());
    // deleting the active workspace clears the slot
    assert!(m.get_active().is_none());
}

#[test]
fn load_without_record_reads_unknown() {
    let mut m = fresh_manager();
    assert!(m.load(&"orphan".to_string()));
    let active = m.get_active().expect("orphan is active");
    assert_eq!(active.0, "orphan");
    assert_eq!(active.1, "Unknown");
    // its lazily created store works
    m.put_value("k".to_string(), "v".to_string()).expect("put under orphan");
    assert_eq!(m.get_value(&"k".to_string()).ok(), Some("v".to_string()));
}

#[test]
fn restart_recovers_last_active() {
    let mut m = fresh_manager();
    let x = m.create("X".to_string()).expect("create X");
    let y = m.create("Y".to_string()).expect("create Y");
    assert!(m.load(&x.id));
    let d = m.shutdown();
    let m2 = Manager::boot(d, "assets".to_string());
    let active = m2.get_active().expect("X recovered");
    assert_eq!(active.0, x.id);
    assert_eq!(active.1, "X");
    assert_ne!(active.0, y.id);
}

#[test]
fn restart_keeps_workspace_data() {
    let mut m = fresh_manager();
    let x = m.create("X".to_string()).expect("create X");
    m.put_value("greeting".to_string(), "hello".to_string()).expect("put");
    let d = m.shutdown();
    let m2 = Manager::boot(d, "assets".to_string());
    assert_eq!(m2.get_active().expect("active").0, x.id);
    assert_eq!(m2.get_value(&"greeting".to_string()).ok(), Some("hello".to_string()));
}

#[test]
fn restart_after_delete_recovers_orphan() {
    let mut m = fresh_manager();
    let x = m.create("X".to_string()).expect("create X");
    m.delete(&x.id);
    // the last-active setting still names the deleted workspace; recovery
    // loads it anyway, lazily recreating an empty store, and the missing
    // record reads as "Unknown"
    let d = m.shutdown();
    let m2 = Manager::boot(d, "assets".to_string());
    let active = m2.get_active().expect("orphan recovered");
    assert_eq!(active.0, x.id);
    assert_eq!(active.1, "Unknown");
}

#[test]
fn settings_last_writer_wins() {
    let mut m = fresh_manager();
    assert!(m.get_setting(&"monitor_config".to_string()).is_none());
    m.put_setting("monitor_config".to_string(), "{\"control_panel_monitor_id\":1}".to_string());
    m.put_setting("monitor_config".to_string(), "{\"control_panel_monitor_id\":2}".to_string());
    assert_eq!(
        m.get_setting(&"monitor_config".to_string()),
        Some("{\"control_panel_monitor_id\":2}".to_string())
    );
}
