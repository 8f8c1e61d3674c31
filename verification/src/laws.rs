//! The protocol's laws, each proved once and for all over the spec
//! functions that the executable functions' contracts are stated in.

use vstd::prelude::*;

use crate::command::{
    args_of, command_word_of, del_err_msg, del_ok_msg, spec_parse, spec_step, CmdErrorModel,
    CmdModel,
};
use crate::text::join_space;
use crate::wire::{spec_encode, spec_process};

verus! {

/// The five command words the parser recognizes (after upper-casing).
pub open spec fn recognized(word: Seq<char>) -> bool {
    word == "PING"@ || word == "ECHO"@ || word == "SET"@ || word == "GET"@ || word == "DEL"@
}

/// A line whose command word is recognized, in whatever letter case, never
/// parses to `UnknownCommandError`; a line whose word is not recognized
/// always does, carrying exactly the upper-cased word.
pub proof fn lemma_word_recognition(line: Seq<char>)
    ensures
        recognized(command_word_of(line)) ==> !(spec_parse(line) matches Err(
            CmdErrorModel::UnknownCommandError(_),
        )),
        !recognized(command_word_of(line)) ==> spec_parse(line) == Err::<
            CmdModel,
            CmdErrorModel,
        >(CmdErrorModel::UnknownCommandError(Some(command_word_of(line)))),
{
}

/// `GET` of a key immediately after `SET` of that key answers exactly the
/// value that was set.
pub proof fn lemma_get_after_set(m: Map<Seq<char>, Seq<char>>, key: Seq<char>, value: Seq<char>)
    ensures
        spec_step(CmdModel::Get { key }, spec_step(CmdModel::Put { key, value }, m).0).1 == Ok::<
            Seq<char>,
            CmdErrorModel,
        >(value),
{
}

/// `DEL` of an unset key fails and leaves the store as it was; `DEL` of a
/// set key succeeds, and a `GET` of that key afterwards fails.
pub proof fn lemma_del_semantics(m: Map<Seq<char>, Seq<char>>, key: Seq<char>)
    ensures
        !m.contains_key(key) ==> spec_step(CmdModel::Del { key }, m) == (
            m,
            Err::<Seq<char>, CmdErrorModel>(CmdErrorModel::DatabaseError(Some(del_err_msg(key)))),
        ),
        m.contains_key(key) ==> spec_step(CmdModel::Del { key }, m).1 == Ok::<
            Seq<char>,
            CmdErrorModel,
        >(del_ok_msg(key)),
        m.contains_key(key) ==> spec_step(
            CmdModel::Get { key },
            spec_step(CmdModel::Del { key }, m).0,
        ).1 == Err::<Seq<char>, CmdErrorModel>(
            CmdErrorModel::DatabaseError(Some("No value for key"@)),
        ),
{
}

/// A `SET` line with a key and two or more value tokens parses to a command
/// whose value is those tokens joined with single spaces, and executing it
/// binds the key to exactly that joined value.
pub proof fn lemma_set_stores_joined_value(line: Seq<char>, m: Map<Seq<char>, Seq<char>>)
    requires
        command_word_of(line) == "SET"@,
        args_of(line).len() >= 2,
    ensures
        spec_parse(line) == Ok::<CmdModel, CmdErrorModel>(
            CmdModel::Put {
                key: args_of(line)[0],
                value: join_space(args_of(line).skip(1)),
            },
        ),
        spec_step(
            CmdModel::Put { key: args_of(line)[0], value: join_space(args_of(line).skip(1)) },
            m,
        ).0.contains_key(args_of(line)[0]),
        spec_step(
            CmdModel::Put { key: args_of(line)[0], value: join_space(args_of(line).skip(1)) },
            m,
        ).0[args_of(line)[0]] == join_space(args_of(line).skip(1)),
{
    reveal_strlit("PING");
    reveal_strlit("ECHO");
    reveal_strlit("SET");
    assert("SET"@ != "PING"@ && "SET"@ != "ECHO"@) by {
        assert("SET"@.len() == 3);
        assert("PING"@.len() == 4);
        assert("ECHO"@.len() == 4);
    }
}

/// An `ECHO` line with no argument tokens is rejected as invalid; with
/// arguments it answers them rejoined with single spaces, leaving the store
/// untouched.
pub proof fn lemma_echo_semantics(line: Seq<char>, m: Map<Seq<char>, Seq<char>>)
    requires
        command_word_of(line) == "ECHO"@,
    ensures
        args_of(line).len() == 0 ==> spec_parse(line) == Err::<CmdModel, CmdErrorModel>(
            CmdErrorModel::InvalidArgumentError(Some("Nothing to echo"@)),
        ),
        args_of(line).len() >= 1 ==> spec_parse(line) == Ok::<CmdModel, CmdErrorModel>(
            CmdModel::Echo { output: join_space(args_of(line)) },
        ),
        args_of(line).len() >= 1 ==> spec_step(
            CmdModel::Echo { output: join_space(args_of(line)) },
            m,
        ) == (m, Ok::<Seq<char>, CmdErrorModel>(join_space(args_of(line)))),
{
    reveal_strlit("PING");
    reveal_strlit("ECHO");
    assert("ECHO"@ != "PING"@) by {
        assert("ECHO"@[0] == 'E');
        assert("PING"@[0] == 'P');
    }
}

/// A `PING` line, whatever trails the word, answers `PONG` and leaves the
/// store untouched — stated over the whole request cycle.
pub proof fn lemma_ping_always_pong(line: Seq<char>, m: Map<Seq<char>, Seq<char>>)
    requires
        command_word_of(line) == "PING"@,
    ensures
        spec_parse(line) == Ok::<CmdModel, CmdErrorModel>(CmdModel::Ping),
        spec_step(CmdModel::Ping, m) == (m, Ok::<Seq<char>, CmdErrorModel>("PONG"@)),
        spec_process(line, m).0 == seq!['+'] + "PONG"@,
        spec_process(line, m).1 == m,
{
}

/// Issuing the same `SET` twice leaves the store exactly as issuing it
/// once, and answers the same confirmation both times.
pub proof fn lemma_set_idempotent(m: Map<Seq<char>, Seq<char>>, key: Seq<char>, value: Seq<char>)
    ensures
        spec_step(CmdModel::Put { key, value }, spec_step(CmdModel::Put { key, value }, m).0).0
            == spec_step(CmdModel::Put { key, value }, m).0,
        spec_step(CmdModel::Put { key, value }, spec_step(CmdModel::Put { key, value }, m).0).1
            == spec_step(CmdModel::Put { key, value }, m).1,
{
    assert(m.insert(key, value).insert(key, value) =~= m.insert(key, value));
}

/// No outcome — success, parse failure or dispatch failure — encodes to an
/// empty line, and the first character alone tells success from failure.
pub proof fn lemma_encode_nonempty(out: Result<Seq<char>, CmdErrorModel>)
    ensures
        spec_encode(out).len() >= 1,
        spec_encode(out).first() == if out is Ok {
            '+'
        } else {
            '-'
        },
{
}

/// Every request line gets exactly one response line, and it is never
/// empty.
pub proof fn lemma_response_nonempty(line: Seq<char>, m: Map<Seq<char>, Seq<char>>)
    ensures
        spec_process(line, m).0.len() >= 1,
{
    match spec_parse(line) {
        Ok(c) => {
            lemma_encode_nonempty(spec_step(c, m).1);
        },
        Err(e) => {
            lemma_encode_nonempty(Err(e));
        },
    }
}

} // verus!
