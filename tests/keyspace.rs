use coredb::error::DdlError;
use coredb::keyspace::Keyspace;
use coredb::objectid::ObjectId;
use coredb::table::{Table, TableType};

fn oid(name: &str) -> ObjectId {
    ObjectId::from_slice(name.as_bytes()).unwrap()
}

#[test]
fn test_keyspace_drop_no_atomic_ref() {
    let mut our_keyspace = Keyspace::empty_default();
    assert!(our_keyspace.create_table(oid("apps"), Table::new_default_kve()));
    assert!(our_keyspace.drop_table(oid("apps")).is_ok());
}

#[test]
fn test_keyspace_drop_fail_with_atomic_ref() {
    let mut our_keyspace = Keyspace::empty_default();
    assert!(our_keyspace.create_table(oid("apps"), Table::new_default_kve()));
    let _atomic_tbl_ref = our_keyspace.get_table_atomic_ref(oid("apps")).unwrap();
    assert_eq!(
        our_keyspace.drop_table(oid("apps")).unwrap_err(),
        DdlError::StillInUse
    );
}

#[test]
fn test_keyspace_try_delete_protected_table() {
    let mut our_keyspace = Keyspace::empty_default();
    assert_eq!(
        our_keyspace.drop_table(oid("default")).unwrap_err(),
        DdlError::ProtectedObject
    );
}

#[test]
fn empty_default_keyspace_has_one_kv_table() {
    let ks = Keyspace::empty_default();
    assert_eq!(ks.tables.len(), 1);
    assert_eq!(ks.get_table(&oid("default")).unwrap().model, TableType::KeyValue);
    assert_eq!(ks.tables.holders_of(&oid("default")), Some(0));
}

#[test]
fn empty_keyspace_has_no_tables() {
    let ks = Keyspace::empty();
    assert_eq!(ks.tables.len(), 0);
    assert!(ks.get_table(&oid("default")).is_none());
}

#[test]
fn create_table_never_overwrites() {
    let mut ks = Keyspace::empty();
    assert!(ks.create_table(oid("apps"), Table::new_default_kve()));
    assert!(!ks.create_table(oid("apps"), Table::new_default_kve()));
    assert_eq!(ks.tables.len(), 1);
}

#[test]
fn held_table_is_dropped_after_release() {
    let mut ks = Keyspace::empty_default();
    assert!(ks.create_table(oid("apps"), Table::new_default_kve()));
    let h = ks.get_table_atomic_ref(oid("apps")).unwrap();
    assert_eq!(h.key(), oid("apps"));
    assert_eq!(ks.drop_table(oid("apps")), Err(DdlError::StillInUse));
    assert!(ks.get_table(&oid("apps")).is_some());
    assert!(ks.release_table(h));
    assert_eq!(ks.drop_table(oid("apps")), Ok(()));
    assert!(ks.get_table(&oid("apps")).is_none());
}

#[test]
fn two_handles_need_two_releases() {
    let mut ks = Keyspace::empty();
    assert!(ks.create_table(oid("t"), Table::new_default_kve()));
    let h1 = ks.get_table_atomic_ref(oid("t")).unwrap();
    let h2 = ks.get_table_atomic_ref(oid("t")).unwrap();
    assert_eq!(ks.tables.holders_of(&oid("t")), Some(2));
    assert!(ks.release_table(h1));
    assert_eq!(ks.drop_table(oid("t")), Err(DdlError::StillInUse));
    assert!(ks.release_table(h2));
    assert_eq!(ks.drop_table(oid("t")), Ok(()));
}

#[test]
fn get_table_atomic_ref_on_absent_table_is_none() {
    let mut ks = Keyspace::empty_default();
    assert!(ks.get_table_atomic_ref(oid("nothing")).is_none());
}

#[test]
fn drop_missing_or_dropped_table_is_not_found() {
    let mut ks = Keyspace::empty_default();
    assert_eq!(ks.drop_table(oid("apps")), Err(DdlError::ObjectNotFound));
    assert!(ks.create_table(oid("apps"), Table::new_default_kve()));
    assert_eq!(ks.drop_table(oid("apps")), Ok(()));
    assert_eq!(ks.drop_table(oid("apps")), Err(DdlError::ObjectNotFound));
}

#[test]
fn default_table_is_protected_even_when_absent() {
    let mut ks = Keyspace::empty();
    assert_eq!(ks.drop_table(oid("default")), Err(DdlError::ProtectedObject));
}

#[test]
fn table_names_are_case_sensitive() {
    let mut ks = Keyspace::empty_default();
    assert!(ks.create_table(oid("Default"), Table::new_default_kve()));
    assert_eq!(ks.drop_table(oid("Default")), Ok(()));
}

#[test]
fn force_remove_ignores_handles() {
    let mut ks = Keyspace::empty();
    assert!(ks.create_table(oid("t"), Table::new_default_kve()));
    let h = ks.get_table_atomic_ref(oid("t")).unwrap();
    ks.force_remove_table(&oid("t"));
    assert!(ks.get_table(&oid("t")).is_none());
    assert!(!ks.release_table(h));
}

#[test]
fn init_with_all_keeps_given_tables() {
    let mut src = Keyspace::empty_default();
    assert!(src.create_table(oid("logs"), Table::new_default_kve()));
    let ks = Keyspace::init_with_all_def_strategy(src.tables);
    assert_eq!(ks.tables.len(), 2);
    assert!(ks.get_table(&oid("logs")).is_some());
}

#[test]
fn partmap_lock_is_released_at_scope_end() {
    let ks = Keyspace::empty();
    {
        let _guard = ks.lock_partmap();
    }
    let _again = ks.lock_partmap();
}

#[test]
fn default_table_only_in_default_keyspace() {
    let mut ks = Keyspace::empty();
    assert!(!ks.is_default);
    assert!(!ks.create_table(oid("default"), Table::new_default_kve()));
    assert_eq!(ks.tables.len(), 0);
    assert!(ks.create_table(oid("apps"), Table::new_default_kve()));
}

#[test]
fn default_keyspace_keeps_default_table() {
    let mut ks = Keyspace::empty_default();
    assert!(ks.is_default);
    assert!(!ks.create_table(oid("default"), Table::new_default_kve()));
    assert_eq!(ks.tables.len(), 1);
}

#[test]
fn restored_keyspace_is_default_when_it_has_default_table() {
    let with_default = Keyspace::init_with_all_def_strategy(Keyspace::empty_default().tables);
    assert!(with_default.is_default);
    let mut plain = Keyspace::empty();
    assert!(plain.create_table(oid("logs"), Table::new_default_kve()));
    let mut without = Keyspace::init_with_all_def_strategy(plain.tables);
    assert!(!without.is_default);
    assert!(!without.create_table(oid("default"), Table::new_default_kve()));
}
