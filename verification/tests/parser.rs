use rustache::command::{parse_args, Cmd, CmdError};

#[test]
fn parse_args_none_is_empty() {
    assert_eq!(parse_args(None), Vec::<String>::new());
}

#[test]
fn parse_args_splits_and_collapses() {
    assert_eq!(
        parse_args(Some("  a \t b  c ".to_owned())),
        vec!["a".to_owned(), "b".to_owned(), "c".to_owned()]
    );
}

#[test]
fn parse_ping_any_case() {
    assert_eq!(Cmd::from_str("PING"), Ok(Cmd::Ping));
    assert_eq!(Cmd::from_str("ping"), Ok(Cmd::Ping));
    assert_eq!(Cmd::from_str("pInG"), Ok(Cmd::Ping));
}

#[test]
fn parse_ping_ignores_trailing_text() {
    assert_eq!(Cmd::from_str("PING extra trailing words"), Ok(Cmd::Ping));
}

#[test]
fn parse_strips_line_terminator() {
    assert_eq!(Cmd::from_str("PING\r\n"), Ok(Cmd::Ping));
    assert_eq!(
        Cmd::from_str("get schwifty\n"),
        Ok(Cmd::Get { key: "schwifty".to_owned() })
    );
}

#[test]
fn parse_unknown_word_is_case_normalized() {
    assert_eq!(
        Cmd::from_str("spiarmf slurmp"),
        Err(CmdError::UnknownCommandError(Some("SPIARMF".to_owned())))
    );
}

#[test]
fn parse_empty_line_is_unknown() {
    assert_eq!(
        Cmd::from_str(""),
        Err(CmdError::UnknownCommandError(Some("".to_owned())))
    );
}

#[test]
fn parse_echo_without_arguments_is_invalid() {
    assert_eq!(
        Cmd::from_str("ECHO"),
        Err(CmdError::InvalidArgumentError(Some("Nothing to echo".to_owned())))
    );
    assert_eq!(
        Cmd::from_str("ECHO   \r\n"),
        Err(CmdError::InvalidArgumentError(Some("Nothing to echo".to_owned())))
    );
}

#[test]
fn parse_echo_hello_world() {
    assert_eq!(
        Cmd::from_str("ECHO hello world"),
        Ok(Cmd::Echo { output: "hello world".to_owned() })
    );
}

#[test]
fn parse_echo_collapses_whitespace_runs() {
    assert_eq!(
        Cmd::from_str("echo a\t  b   c"),
        Ok(Cmd::Echo { output: "a b c".to_owned() })
    );
}

#[test]
fn parse_set_multi_token_value() {
    assert_eq!(
        Cmd::from_str("SET key a b c"),
        Ok(Cmd::Put { key: "key".to_owned(), value: "a b c".to_owned() })
    );
}

#[test]
fn parse_set_single_value() {
    assert_eq!(
        Cmd::from_str("set name slurm"),
        Ok(Cmd::Put { key: "name".to_owned(), value: "slurm".to_owned() })
    );
}

#[test]
fn parse_set_without_value_is_invalid() {
    assert_eq!(
        Cmd::from_str("SET key"),
        Err(CmdError::InvalidArgumentError(Some("No value specified".to_owned())))
    );
}

#[test]
fn parse_set_without_key_is_invalid() {
    assert_eq!(
        Cmd::from_str("SET"),
        Err(CmdError::InvalidArgumentError(Some("No key specified".to_owned())))
    );
}

#[test]
fn parse_get_takes_first_token() {
    assert_eq!(
        Cmd::from_str("GET schwifty extra"),
        Ok(Cmd::Get { key: "schwifty".to_owned() })
    );
}

#[test]
fn parse_get_without_key_is_invalid() {
    assert_eq!(
        Cmd::from_str("GET"),
        Err(CmdError::InvalidArgumentError(Some("No key specified".to_owned())))
    );
}

#[test]
fn parse_del_takes_first_token() {
    assert_eq!(
        Cmd::from_str("del gone extra"),
        Ok(Cmd::Del { key: "gone".to_owned() })
    );
}

#[test]
fn parse_del_without_key_is_invalid() {
    assert_eq!(
        Cmd::from_str("DEL \r\n"),
        Err(CmdError::InvalidArgumentError(Some("No key specified".to_owned())))
    );
}

#[test]
fn parse_word_split_on_any_whitespace() {
    assert_eq!(Cmd::from_str("PING\tmore"), Ok(Cmd::Ping));
}

#[test]
fn parse_leading_space_makes_empty_word() {
    assert_eq!(
        Cmd::from_str(" PING"),
        Err(CmdError::UnknownCommandError(Some("".to_owned())))
    );
}
