use mini_runtime::db::{Command, Db, DbError, Reply};

fn put(db: &mut Db, key: &str, value: &[u8]) {
    let r = db.apply(Command::Put { key: key.to_string(), value: value.to_vec() });
    assert!(matches!(r, Ok(Reply::Stored)));
}

fn get(db: &mut Db, key: &str) -> Result<Reply, DbError> {
    db.apply(Command::Get { key: key.to_string() })
}

#[test]
fn put_then_get_answers_value() {
    let mut db = Db::new();
    put(&mut db, "hello", b"world");
    match get(&mut db, "hello") {
        Ok(Reply::Bulk(v)) => assert_eq!(v, b"world".to_vec()),
        _ => panic!("expected the stored value"),
    }
}

#[test]
fn get_absent_key_answers_null() {
    let mut db = Db::new();
    assert!(matches!(get(&mut db, "missing"), Ok(Reply::Null)));
    put(&mut db, "a", b"1");
    assert!(matches!(get(&mut db, "b"), Ok(Reply::Null)));
}

#[test]
fn put_replaces_previous_value() {
    let mut db = Db::new();
    put(&mut db, "k", b"old");
    put(&mut db, "other", b"x");
    put(&mut db, "k", b"new");
    match get(&mut db, "k") {
        Ok(Reply::Bulk(v)) => assert_eq!(v, b"new".to_vec()),
        _ => panic!("expected the new value"),
    }
    match db.get(&"other".to_string()) {
        Some(v) => assert_eq!(v, b"x".to_vec()),
        None => panic!("other key lost"),
    }
}

#[test]
fn empty_key_and_value_are_stored() {
    let mut db = Db::new();
    put(&mut db, "", b"");
    match get(&mut db, "") {
        Ok(Reply::Bulk(v)) => assert!(v.is_empty()),
        _ => panic!("expected an empty value"),
    }
}

#[test]
fn unsupported_command_is_refused_and_changes_nothing() {
    let mut db = Db::new();
    put(&mut db, "k", b"v");
    assert_eq!(db.apply(Command::Unsupported).err(), Some(DbError::Unimplemented));
    match get(&mut db, "k") {
        Ok(Reply::Bulk(v)) => assert_eq!(v, b"v".to_vec()),
        _ => panic!("value lost"),
    }
}
