//! Read-after-write consistency under each of the three access
//! disciplines: the unshared store, the exclusive lock, and the
//! reader/writer lock.

use std::sync::{Arc, Mutex, RwLock};

use choices::access::{read_access, write_access, AccessMode};
use choices::attributes::{resolve, AnnotationDecl, AnnotationValue, CompiledSchema, LockKind};
use choices::configs::text::SimpleBoolConfig;
use choices::routes::{handle_read, handle_request, Method, Response};
use choices::store::{ConfigStore, NoCallbacks};

fn path(segs: &[&str]) -> Vec<String> {
    segs.iter().map(|s| String::from(*s)).collect()
}

fn get(schema: &CompiledSchema, store: &mut ConfigStore, segs: &[&str]) -> Response {
    handle_request(schema, store, &NoCallbacks, Method::Get, &path(segs), "")
}

fn put(schema: &CompiledSchema, store: &mut ConfigStore, segs: &[&str], body: &str) -> Response {
    handle_request(schema, store, &NoCallbacks, Method::Put, &path(segs), body)
}

fn bool_schema() -> CompiledSchema {
    resolve(&SimpleBoolConfig::struct_annotations(), SimpleBoolConfig::field_decls()).unwrap()
}

#[test]
fn read_after_write_unshared() {
    let schema = bool_schema();
    let mut store = SimpleBoolConfig { debug: true }.store();
    assert_eq!(put(&schema, &mut store, &["config", "debug"], "false").status, 200);
    assert_eq!(get(&schema, &mut store, &["config", "debug"]).body, "false");
}

#[test]
fn read_after_write_exclusive() {
    let schema = bool_schema();
    let shared = Arc::new(Mutex::new(SimpleBoolConfig { debug: true }.store()));
    {
        let mut guard = shared.lock().unwrap();
        assert_eq!(put(&schema, &mut guard, &["config", "debug"], "false").status, 200);
    }
    {
        let mut guard = shared.lock().unwrap();
        assert_eq!(get(&schema, &mut guard, &["config", "debug"]).body, "false");
    }
}

#[test]
fn read_after_write_rw_lock() {
    let anns = vec![AnnotationDecl {
        name: String::from("rw_lock"),
        value: AnnotationValue::Flag,
    }];
    let schema = resolve(&anns, SimpleBoolConfig::field_decls()).unwrap();
    assert_eq!(schema.attributes.lock_kind, LockKind::ReadWrite);
    let shared = Arc::new(RwLock::new(SimpleBoolConfig { debug: true }.store()));
    {
        let mut guard = shared.write().unwrap();
        assert_eq!(put(&schema, &mut guard, &["config", "debug"], "false").status, 200);
    }
    {
        let guard = shared.read().unwrap();
        let r = handle_read(&schema, &guard, &path(&["config", "debug"]));
        assert_eq!(r.status, 200);
        assert_eq!(r.body, "false");
    }
}

#[test]
fn access_modes_per_lock_kind() {
    assert_eq!(read_access(LockKind::Unshared), AccessMode::Direct);
    assert_eq!(write_access(LockKind::Unshared), AccessMode::Direct);
    assert_eq!(read_access(LockKind::Exclusive), AccessMode::Mutex);
    assert_eq!(write_access(LockKind::Exclusive), AccessMode::Mutex);
    assert_eq!(read_access(LockKind::ReadWrite), AccessMode::RwRead);
    assert_eq!(write_access(LockKind::ReadWrite), AccessMode::RwWrite);
}

#[test]
fn access_error_maps_to_server_error() {
    let e = choices::ChoicesError::AccessError(String::from("the lock is poisoned"));
    let r = choices::routes::access_error_response(&e);
    assert_eq!(r.status, 500);
    assert_eq!(r.body, "AccessError: the lock is poisoned");
}
