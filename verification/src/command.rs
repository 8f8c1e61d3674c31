//! The command protocol: typed commands, the error taxonomy, parsing of a
//! raw wire line, and dispatch against the store.

use vstd::prelude::*;
use vstd::string::*;

use crate::store::Store;
use crate::text::{
    is_ws, is_ws_char, join_space, join_tokens, lemma_token_len_is, str_eq, to_upper, token_len,
    tokenize, tokens_of, trimmed_end, upper_seq,
};

verus! {

/// An optional human-readable detail carried by an error.
pub type ErrorMsg = Option<String>;

/// What a command dispatch hands back: the success payload for the client,
/// or the error that ends this one request.
pub type CmdOutput = Result<String, CmdError>;

/// A validated, typed request, ready for execution: each variant carries
/// exactly the arguments its execution needs.
#[derive(Debug, PartialEq)]
pub enum Cmd {
    Ping,
    Echo { output: String },
    Put { key: String, value: String },
    Get { key: String },
    Del { key: String },
}

/// The closed error taxonomy: an unrecognized command word, a wrong shape or
/// arity, or a store lookup that found nothing. Each carries an optional
/// detail string.
#[derive(Debug, PartialEq)]
pub enum CmdError {
    UnknownCommandError(ErrorMsg),
    InvalidCommandError(ErrorMsg),
    InvalidArgumentError(ErrorMsg),
    DatabaseError(ErrorMsg),
}

/// The mathematical shape of a [`Cmd`]: the same variants over character
/// sequences.
pub enum CmdModel {
    Ping,
    Echo { output: Seq<char> },
    Put { key: Seq<char>, value: Seq<char> },
    Get { key: Seq<char> },
    Del { key: Seq<char> },
}

/// The mathematical shape of a [`CmdError`].
pub enum CmdErrorModel {
    UnknownCommandError(Option<Seq<char>>),
    InvalidCommandError(Option<Seq<char>>),
    InvalidArgumentError(Option<Seq<char>>),
    DatabaseError(Option<Seq<char>>),
}

impl View for Cmd {
    type V = CmdModel;

    open spec fn view(&self) -> CmdModel {
        match self {
            Cmd::Ping => CmdModel::Ping,
            Cmd::Echo { output } => CmdModel::Echo { output: output@ },
            Cmd::Put { key, value } => CmdModel::Put { key: key@, value: value@ },
            Cmd::Get { key } => CmdModel::Get { key: key@ },
            Cmd::Del { key } => CmdModel::Del { key: key@ },
        }
    }
}

impl View for CmdError {
    type V = CmdErrorModel;

    open spec fn view(&self) -> CmdErrorModel {
        match self {
            CmdError::UnknownCommandError(m) => CmdErrorModel::UnknownCommandError(m.deep_view()),
            CmdError::InvalidCommandError(m) => CmdErrorModel::InvalidCommandError(m.deep_view()),
            CmdError::InvalidArgumentError(m) => CmdErrorModel::InvalidArgumentError(
                m.deep_view(),
            ),
            CmdError::DatabaseError(m) => CmdErrorModel::DatabaseError(m.deep_view()),
        }
    }
}

/// The model of a dispatch outcome.
pub open spec fn out_model(r: Result<String, CmdError>) -> Result<Seq<char>, CmdErrorModel> {
    match r {
        Ok(s) => Ok(s@),
        Err(e) => Err(e@),
    }
}

/// The confirmation line for a successful `SET`: both key and value quoted.
pub open spec fn set_msg(key: Seq<char>, value: Seq<char>) -> Seq<char> {
    seq!['"'] + key + seq!['"', ':', '"'] + value + seq!['"']
}

/// The confirmation line for a successful `DEL`.
pub open spec fn del_ok_msg(key: Seq<char>) -> Seq<char> {
    "Key \""@ + key + "\" deleted"@
}

/// The detail for a `DEL` of an unset key.
pub open spec fn del_err_msg(key: Seq<char>) -> Seq<char> {
    "Key \""@ + key + "\" does not exist"@
}

/// What executing a command does: the store it leaves behind, and the
/// outcome it reports. The store changes only under `SET` and `DEL`.
pub open spec fn spec_step(cmd: CmdModel, m: Map<Seq<char>, Seq<char>>) -> (
    Map<Seq<char>, Seq<char>>,
    Result<Seq<char>, CmdErrorModel>,
) {
    match cmd {
        CmdModel::Ping => (m, Ok("PONG"@)),
        CmdModel::Echo { output } => (m, Ok(output)),
        CmdModel::Put { key, value } => (m.insert(key, value), Ok(set_msg(key, value))),
        CmdModel::Get { key } => (
            m,
            if m.contains_key(key) {
                Ok(m[key])
            } else {
                Err(CmdErrorModel::DatabaseError(Some("No value for key"@)))
            },
        ),
        CmdModel::Del { key } => if m.contains_key(key) {
            (m.remove(key), Ok(del_ok_msg(key)))
        } else {
            (m, Err(CmdErrorModel::DatabaseError(Some(del_err_msg(key)))))
        },
    }
}

/// The variant name an error is rendered under.
pub open spec fn err_name(e: CmdErrorModel) -> Seq<char> {
    match e {
        CmdErrorModel::UnknownCommandError(_) => "UnknownCommandError"@,
        CmdErrorModel::InvalidCommandError(_) => "InvalidCommandError"@,
        CmdErrorModel::InvalidArgumentError(_) => "InvalidArgumentError"@,
        CmdErrorModel::DatabaseError(_) => "DatabaseError"@,
    }
}

/// The detail an error carries, if any.
pub open spec fn err_detail(e: CmdErrorModel) -> Option<Seq<char>> {
    match e {
        CmdErrorModel::UnknownCommandError(m) => m,
        CmdErrorModel::InvalidCommandError(m) => m,
        CmdErrorModel::InvalidArgumentError(m) => m,
        CmdErrorModel::DatabaseError(m) => m,
    }
}

/// A variant name, followed by `: detail` when there is a detail.
pub open spec fn full_msg(name: Seq<char>, msg: Option<Seq<char>>) -> Seq<char> {
    match msg {
        Some(m) => name + ": "@ + m,
        None => name,
    }
}

/// The whole human-readable rendering of an error.
pub open spec fn err_text(e: CmdErrorModel) -> Seq<char> {
    full_msg(err_name(e), err_detail(e))
}

impl CmdError {
    /// Renders a variant name and an optional detail as one message.
    pub fn get_full_msg(&self, name: &'static str, msg: &ErrorMsg) -> (r: String)
        ensures
            r@ == full_msg(name@, msg.deep_view()),
    {
        let mut out = name.to_owned();
        match msg {
            Some(m) => {
                out.append(": ");
                out.append(m.as_str());
            },
            None => {},
        }
        out
    }

    /// The human-readable text of this error, per [`err_text`]: its variant
    /// name, then `: ` and its detail when one is carried.
    pub fn to_string(&self) -> (r: String)
        ensures
            r@ == err_text(self@),
    {
        match self {
            Self::UnknownCommandError(msg) => self.get_full_msg("UnknownCommandError", msg),
            Self::InvalidCommandError(msg) => self.get_full_msg("InvalidCommandError", msg),
            Self::InvalidArgumentError(msg) => self.get_full_msg("InvalidArgumentError", msg),
            Self::DatabaseError(msg) => self.get_full_msg("DatabaseError", msg),
        }
    }
}

/// The command word of a raw line: the leading run of non-whitespace
/// characters after the trailing whitespace is stripped, upper-cased for
/// case-insensitive matching.
pub open spec fn command_word_of(line: Seq<char>) -> Seq<char> {
    let t = trimmed_end(line);
    upper_seq(t.take(token_len(t)))
}

/// The argument tokens of a raw line: what follows the command word, split
/// on whitespace runs.
pub open spec fn args_of(line: Seq<char>) -> Seq<Seq<char>> {
    let t = trimmed_end(line);
    tokens_of(t.skip(token_len(t)))
}

/// The result of parsing one raw wire line, per the command grammar: the
/// line is stripped of trailing whitespace, split into a command word (the
/// leading run of non-whitespace, matched case-insensitively) and
/// whitespace-separated argument tokens, and checked for arity. `PING` takes
/// no arguments and ignores trailing text; `ECHO` echoes its arguments
/// rejoined with single spaces; `SET` takes a key and a value joined from
/// the remaining tokens; `GET` and `DEL` take a key and ignore extra tokens.
pub open spec fn spec_parse(line: Seq<char>) -> Result<CmdModel, CmdErrorModel> {
    let word = command_word_of(line);
    let args = args_of(line);
    if word == "PING"@ {
        Ok(CmdModel::Ping)
    } else if word == "ECHO"@ {
        if args.len() >= 1 {
            Ok(CmdModel::Echo { output: join_space(args) })
        } else {
            Err(CmdErrorModel::InvalidArgumentError(Some("Nothing to echo"@)))
        }
    } else if word == "SET"@ {
        if args.len() >= 2 {
            Ok(CmdModel::Put { key: args[0], value: join_space(args.skip(1)) })
        } else if args.len() == 1 {
            Err(CmdErrorModel::InvalidArgumentError(Some("No value specified"@)))
        } else {
            Err(CmdErrorModel::InvalidArgumentError(Some("No key specified"@)))
        }
    } else if word == "GET"@ {
        if args.len() >= 1 {
            Ok(CmdModel::Get { key: args[0] })
        } else {
            Err(CmdErrorModel::InvalidArgumentError(Some("No key specified"@)))
        }
    } else if word == "DEL"@ {
        if args.len() >= 1 {
            Ok(CmdModel::Del { key: args[0] })
        } else {
            Err(CmdErrorModel::InvalidArgumentError(Some("No key specified"@)))
        }
    } else {
        Err(CmdErrorModel::UnknownCommandError(Some(word)))
    }
}

/// The model of a parse result.
pub open spec fn parse_model(r: Result<Cmd, CmdError>) -> Result<CmdModel, CmdErrorModel> {
    match r {
        Ok(c) => Ok(c@),
        Err(e) => Err(e@),
    }
}

/// Tokenizes the raw argument text of a command line; absent text parses to
/// no arguments.
pub fn parse_args(args: Option<String>) -> (r: Vec<String>)
    ensures
        r.deep_view() == tokens_of(
            match args {
                Some(s) => s@,
                None => Seq::<char>::empty(),
            },
        ),
{
    match args {
        Some(s) => tokenize(s.as_str()),
        None => {
            let r: Vec<String> = Vec::new();
            proof {
                assert(r.deep_view() =~= Seq::<Seq<char>>::empty());
            }
            r
        },
    }
}

/// Builds [`set_msg`] as a string.
fn format_set_msg(key: &String, value: &String) -> (r: String)
    ensures
        r@ == set_msg(key@, value@),
{
    let mut out = String::new();
    crate::text::push_char(&mut out, '"');
    out.append(key.as_str());
    crate::text::push_char(&mut out, '"');
    crate::text::push_char(&mut out, ':');
    crate::text::push_char(&mut out, '"');
    out.append(value.as_str());
    crate::text::push_char(&mut out, '"');
    proof {
        assert(out@ =~= set_msg(key@, value@));
    }
    out
}

/// Builds [`del_ok_msg`] as a string.
fn format_del_ok_msg(key: &String) -> (r: String)
    ensures
        r@ == del_ok_msg(key@),
{
    let mut out = "Key \"".to_owned();
    out.append(key.as_str());
    out.append("\" deleted");
    proof {
        assert(out@ =~= del_ok_msg(key@));
    }
    out
}

/// Builds [`del_err_msg`] as a string.
fn format_del_err_msg(key: &String) -> (r: String)
    ensures
        r@ == del_err_msg(key@),
{
    let mut out = "Key \"".to_owned();
    out.append(key.as_str());
    out.append("\" does not exist");
    proof {
        assert(out@ =~= del_err_msg(key@));
    }
    out
}

impl Cmd {
    /// Parses one raw wire line into a typed command, per [`spec_parse`]:
    /// `Ok` exactly when the line holds a recognized command word with the
    /// arity its command asks for, and otherwise the error that names what
    /// was wrong.
    pub fn from_str(input: &str) -> (r: Result<Cmd, CmdError>)
        ensures
            parse_model(r) == spec_parse(input@),
    {
        let n = input.unicode_len();
        let mut e: usize = n;
        proof {
            assert(input@.take(n as int) =~= input@);
        }
        while e > 0 && is_ws(input.get_char(e - 1))
            invariant
                e <= n,
                n == input@.len(),
                trimmed_end(input@) == trimmed_end(input@.take(e as int)),
            decreases e,
        {
            proof {
                let cur = input@.take(e as int);
                assert(cur.last() == input@[e - 1]);
                assert(cur.drop_last() =~= input@.take(e - 1));
            }
            e -= 1;
        }
        let ghost t = input@.take(e as int);
        proof {
            if e > 0 {
                assert(t.last() == input@[e - 1]);
            }
            assert(trimmed_end(t) == t);
            assert(trimmed_end(input@) == t);
        }
        let mut w: usize = 0;
        while w < e && !is_ws(input.get_char(w))
            invariant
                w <= e <= n,
                n == input@.len(),
                forall|k: int| 0 <= k < w ==> !is_ws_char(input@[k]),
            decreases e - w,
        {
            w += 1;
        }
        proof {
            assert(forall|k: int| 0 <= k < w ==> t[k] == input@[k]);
            if w < e {
                assert(t[w as int] == input@[w as int]);
            }
            lemma_token_len_is(t, w as int);
        }
        let word_src = input.substring_char(0, w);
        let word = to_upper(word_src);
        let rest = input.substring_char(w, e);
        let args = tokenize(rest);
        proof {
            assert(word_src@ =~= t.take(token_len(t)));
            assert(rest@ =~= t.skip(token_len(t)));
        }
        if str_eq(word.as_str(), "PING") {
            Ok(Cmd::Ping)
        } else if str_eq(word.as_str(), "ECHO") {
            if args.len() >= 1 {
                let output = join_tokens(&args, 0);
                proof {
                    assert(args.deep_view().skip(0) =~= args.deep_view());
                }
                Ok(Cmd::Echo { output })
            } else {
                Err(CmdError::InvalidArgumentError(Some("Nothing to echo".to_owned())))
            }
        } else if str_eq(word.as_str(), "SET") {
            if args.len() >= 2 {
                let key = args[0].clone();
                let value = join_tokens(&args, 1);
                proof {
                    assert(key@ == args.deep_view()[0]);
                }
                Ok(Cmd::Put { key, value })
            } else if args.len() == 1 {
                Err(CmdError::InvalidArgumentError(Some("No value specified".to_owned())))
            } else {
                Err(CmdError::InvalidArgumentError(Some("No key specified".to_owned())))
            }
        } else if str_eq(word.as_str(), "GET") {
            if args.len() >= 1 {
                let key = args[0].clone();
                proof {
                    assert(key@ == args.deep_view()[0]);
                }
                Ok(Cmd::Get { key })
            } else {
                Err(CmdError::InvalidArgumentError(Some("No key specified".to_owned())))
            }
        } else if str_eq(word.as_str(), "DEL") {
            if args.len() >= 1 {
                let key = args[0].clone();
                proof {
                    assert(key@ == args.deep_view()[0]);
                }
                Ok(Cmd::Del { key })
            } else {
                Err(CmdError::InvalidArgumentError(Some("No key specified".to_owned())))
            }
        } else {
            Err(CmdError::UnknownCommandError(Some(word)))
        }
    }

    /// Executes the command against the store, per [`spec_step`]: `PING`
    /// answers `PONG`, `ECHO` answers its text, `SET` overwrites and always
    /// succeeds, `GET` and `DEL` fail exactly on an unset key.
    pub fn handle(self, db: &mut Store) -> (r: CmdOutput)
        ensures
            final(db)@ == spec_step(self@, old(db)@).0,
            out_model(r) == spec_step(self@, old(db)@).1,
    {
        match self {
            Cmd::Ping => Ok("PONG".to_owned()),
            Cmd::Echo { output } => Ok(output),
            Cmd::Put { key, value } => Self::handle_set(key, value, db),
            Cmd::Get { key } => Self::handle_get(key, db),
            Cmd::Del { key } => Self::handle_del(key, db),
        }
    }

    /// `SET`: binds the key and confirms; never an error.
    pub fn handle_set(key: String, value: String, db: &mut Store) -> (r: CmdOutput)
        ensures
            final(db)@ == old(db)@.insert(key@, value@),
            out_model(r) == Ok::<Seq<char>, CmdErrorModel>(set_msg(key@, value@)),
    {
        let msg = format_set_msg(&key, &value);
        db.set(key, value);
        Ok(msg)
    }

    /// `GET`: answers the value bound to the key, or fails when unset; the
    /// store is untouched.
    pub fn handle_get(key: String, db: &mut Store) -> (r: CmdOutput)
        ensures
            final(db)@ == old(db)@,
            out_model(r) == spec_step(CmdModel::Get { key: key@ }, old(db)@).1,
    {
        match db.get(&key) {
            Some(v) => Ok(v),
            None => Err(CmdError::DatabaseError(Some("No value for key".to_owned()))),
        }
    }

    /// `DEL`: unbinds the key and confirms, or fails when it was not set.
    pub fn handle_del(key: String, db: &mut Store) -> (r: CmdOutput)
        ensures
            final(db)@ == spec_step(CmdModel::Del { key: key@ }, old(db)@).0,
            out_model(r) == spec_step(CmdModel::Del { key: key@ }, old(db)@).1,
    {
        let existed = db.delete(&key);
        if existed {
            Ok(format_del_ok_msg(&key))
        } else {
            proof {
                assert(old(db)@.remove(key@) =~= old(db)@);
            }
            Err(CmdError::DatabaseError(Some(format_del_err_msg(&key))))
        }
    }
}

} // verus!
