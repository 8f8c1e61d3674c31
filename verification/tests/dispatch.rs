use rustache::command::{Cmd, CmdError};
use rustache::store::Store;

#[test]
fn ping_returns_pong() {
    let mut db = Store::new();
    assert_eq!(Cmd::Ping.handle(&mut db), Ok("PONG".to_owned()));
}

#[test]
fn ping_returns_pong_on_populated_store() {
    let mut db = Store::new();
    db.set("k".to_owned(), "v".to_owned());
    assert_eq!(Cmd::Ping.handle(&mut db), Ok("PONG".to_owned()));
    assert_eq!(db.get(&"k".to_owned()), Some("v".to_owned()));
}

#[test]
fn echo_returns_its_text() {
    let mut db = Store::new();
    let cmd = Cmd::Echo { output: "ermahgerd dergs".to_owned() };
    assert_eq!(cmd.handle(&mut db), Ok("ermahgerd dergs".to_owned()));
}

#[test]
fn get_after_set_returns_value() {
    let mut db = Store::new();
    let set = Cmd::Put { key: "key".to_owned(), value: "value".to_owned() };
    assert!(set.handle(&mut db).is_ok());
    let get = Cmd::Get { key: "key".to_owned() };
    assert_eq!(get.handle(&mut db), Ok("value".to_owned()));
}

#[test]
fn set_reports_quoted_pair() {
    let mut db = Store::new();
    let set = Cmd::Put { key: "k".to_owned(), value: "a b c".to_owned() };
    assert_eq!(set.handle(&mut db), Ok("\"k\":\"a b c\"".to_owned()));
}

#[test]
fn set_overwrites_previous_value() {
    let mut db = Store::new();
    Cmd::Put { key: "k".to_owned(), value: "one".to_owned() }.handle(&mut db).unwrap();
    Cmd::Put { key: "k".to_owned(), value: "two".to_owned() }.handle(&mut db).unwrap();
    let get = Cmd::Get { key: "k".to_owned() };
    assert_eq!(get.handle(&mut db), Ok("two".to_owned()));
}

#[test]
fn set_twice_is_idempotent() {
    let mut once = Store::new();
    Cmd::Put { key: "k".to_owned(), value: "v".to_owned() }.handle(&mut once).unwrap();

    let mut twice = Store::new();
    let first = Cmd::Put { key: "k".to_owned(), value: "v".to_owned() }.handle(&mut twice);
    let second = Cmd::Put { key: "k".to_owned(), value: "v".to_owned() }.handle(&mut twice);
    assert_eq!(first, second);

    assert_eq!(
        Cmd::Get { key: "k".to_owned() }.handle(&mut once),
        Cmd::Get { key: "k".to_owned() }.handle(&mut twice)
    );
    assert_eq!(
        Cmd::Del { key: "k".to_owned() }.handle(&mut once),
        Cmd::Del { key: "k".to_owned() }.handle(&mut twice)
    );
    assert_eq!(
        Cmd::Get { key: "k".to_owned() }.handle(&mut once),
        Cmd::Get { key: "k".to_owned() }.handle(&mut twice)
    );
}

#[test]
fn get_unset_key_fails() {
    let mut db = Store::new();
    assert_eq!(
        Cmd::Get { key: "missing".to_owned() }.handle(&mut db),
        Err(CmdError::DatabaseError(Some("No value for key".to_owned())))
    );
}

#[test]
fn del_unset_key_fails() {
    let mut db = Store::new();
    assert_eq!(
        Cmd::Del { key: "missing".to_owned() }.handle(&mut db),
        Err(CmdError::DatabaseError(Some(
            "Key \"missing\" does not exist".to_owned()
        )))
    );
}

#[test]
fn del_set_key_then_get_fails() {
    let mut db = Store::new();
    Cmd::Put { key: "k".to_owned(), value: "v".to_owned() }.handle(&mut db).unwrap();
    assert_eq!(
        Cmd::Del { key: "k".to_owned() }.handle(&mut db),
        Ok("Key \"k\" deleted".to_owned())
    );
    assert_eq!(
        Cmd::Get { key: "k".to_owned() }.handle(&mut db),
        Err(CmdError::DatabaseError(Some("No value for key".to_owned())))
    );
}

#[test]
fn handle_set_get_del_directly() {
    let mut db = Store::new();
    assert_eq!(
        Cmd::handle_set("k".to_owned(), "v".to_owned(), &mut db),
        Ok("\"k\":\"v\"".to_owned())
    );
    assert_eq!(Cmd::handle_get("k".to_owned(), &mut db), Ok("v".to_owned()));
    assert_eq!(
        Cmd::handle_del("k".to_owned(), &mut db),
        Ok("Key \"k\" deleted".to_owned())
    );
    assert_eq!(
        Cmd::handle_get("k".to_owned(), &mut db),
        Err(CmdError::DatabaseError(Some("No value for key".to_owned())))
    );
}

#[test]
fn store_tracks_previous_values() {
    let mut db = Store::new();
    assert_eq!(db.get(&"k".to_owned()), None);
    assert_eq!(db.set("k".to_owned(), "one".to_owned()), None);
    assert_eq!(db.set("k".to_owned(), "two".to_owned()), Some("one".to_owned()));
    assert_eq!(db.get(&"k".to_owned()), Some("two".to_owned()));
    assert!(db.delete(&"k".to_owned()));
    assert!(!db.delete(&"k".to_owned()));
    assert_eq!(db.get(&"k".to_owned()), None);
}

#[test]
fn store_keeps_keys_independent() {
    let mut db = Store::new();
    db.set("a".to_owned(), "1".to_owned());
    db.set("b".to_owned(), "2".to_owned());
    assert_eq!(db.get(&"a".to_owned()), Some("1".to_owned()));
    assert_eq!(db.get(&"b".to_owned()), Some("2".to_owned()));
    db.delete(&"a".to_owned());
    assert_eq!(db.get(&"a".to_owned()), None);
    assert_eq!(db.get(&"b".to_owned()), Some("2".to_owned()));
}
