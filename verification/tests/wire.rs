use rustache::command::CmdError;
use rustache::store::Store;
use rustache::wire::{prefix_output, process};

#[test]
fn encode_success_prefixes_plus() {
    assert_eq!(prefix_output(Ok("PONG".to_owned())), "+PONG".to_owned());
}

#[test]
fn encode_failure_prefixes_minus() {
    let err = CmdError::UnknownCommandError(Some("SPIARMF".to_owned()));
    assert_eq!(
        prefix_output(Err(err)),
        "-UnknownCommandError: SPIARMF".to_owned()
    );
}

#[test]
fn encode_dispatch_failure_is_never_empty() {
    let out = prefix_output(Err(CmdError::DatabaseError(Some(
        "No value for key".to_owned(),
    ))));
    assert!(!out.is_empty());
    assert_eq!(out, "-DatabaseError: No value for key".to_owned());
}

#[test]
fn encode_error_without_detail() {
    assert_eq!(
        prefix_output(Err(CmdError::InvalidCommandError(None))),
        "-InvalidCommandError".to_owned()
    );
}

#[test]
fn error_text_has_name_and_detail() {
    let err = CmdError::InvalidArgumentError(Some("Nothing to echo".to_owned()));
    assert_eq!(err.to_string(), "InvalidArgumentError: Nothing to echo".to_owned());
    let bare = CmdError::DatabaseError(None);
    assert_eq!(bare.to_string(), "DatabaseError".to_owned());
}

#[test]
fn get_full_msg_joins_with_colon() {
    let err = CmdError::DatabaseError(None);
    assert_eq!(
        err.get_full_msg("DatabaseError", &Some("boom".to_owned())),
        "DatabaseError: boom".to_owned()
    );
    assert_eq!(err.get_full_msg("DatabaseError", &None), "DatabaseError".to_owned());
}

#[test]
fn process_runs_a_whole_session() {
    let mut db = Store::new();
    assert_eq!(process("PING\r\n", &mut db), "+PONG".to_owned());
    assert_eq!(process("SET key a b c\r\n", &mut db), "+\"key\":\"a b c\"".to_owned());
    assert_eq!(process("GET key\r\n", &mut db), "+a b c".to_owned());
    assert_eq!(process("DEL key\r\n", &mut db), "+Key \"key\" deleted".to_owned());
    assert_eq!(
        process("GET key\r\n", &mut db),
        "-DatabaseError: No value for key".to_owned()
    );
    assert_eq!(
        process("spiarmf slurmp\r\n", &mut db),
        "-UnknownCommandError: SPIARMF".to_owned()
    );
    assert_eq!(
        process("ECHO\r\n", &mut db),
        "-InvalidArgumentError: Nothing to echo".to_owned()
    );
    assert_eq!(process("echo hello   world", &mut db), "+hello world".to_owned());
}

#[test]
fn process_never_returns_an_empty_line() {
    let mut db = Store::new();
    let lines = vec![
        "",
        "\r\n",
        "PING",
        "ECHO",
        "SET",
        "SET k",
        "SET k v",
        "GET k",
        "DEL k",
        "nonsense",
        "   ",
    ];
    for line in lines {
        assert!(!process(line, &mut db).is_empty());
    }
}

#[test]
fn process_parse_error_leaves_store_untouched() {
    let mut db = Store::new();
    process("SET k v", &mut db);
    process("SET", &mut db);
    process("gibberish", &mut db);
    assert_eq!(process("GET k", &mut db), "+v".to_owned());
}
