//! The wire encoding of outcomes, and the one-line request cycle: a success
//! is sent as `+` followed by its payload, a failure as `-` followed by the
//! error text, so a response line is never empty and a machine client can
//! tell the two apart without parsing the content.

use vstd::prelude::*;
use vstd::string::*;

use crate::command::{err_text, out_model, spec_parse, spec_step, Cmd, CmdErrorModel, CmdOutput};
use crate::store::Store;
use crate::text::push_char;

verus! {

/// The response line an outcome is encoded as: `+payload` or `-error text`.
pub open spec fn spec_encode(out: Result<Seq<char>, CmdErrorModel>) -> Seq<char> {
    match out {
        Ok(msg) => seq!['+'] + msg,
        Err(e) => seq!['-'] + err_text(e),
    }
}

/// Encodes a dispatch or parse outcome as its one response line, per
/// [`spec_encode`].
pub fn prefix_output(output: CmdOutput) -> (r: String)
    ensures
        r@ == spec_encode(out_model(output)),
{
    let mut out = String::new();
    match output {
        Ok(msg) => {
            push_char(&mut out, '+');
            out.append(msg.as_str());
            proof {
                assert(out@ =~= seq!['+'] + msg@);
            }
        },
        Err(err) => {
            push_char(&mut out, '-');
            let text = err.to_string();
            out.append(text.as_str());
            proof {
                assert(out@ =~= seq!['-'] + err_text(err@));
            }
        },
    }
    out
}

/// One whole request cycle as a function of the line and the store: the
/// response line sent back, and the store left behind. A line that does not
/// parse leaves the store untouched.
pub open spec fn spec_process(line: Seq<char>, m: Map<Seq<char>, Seq<char>>) -> (
    Seq<char>,
    Map<Seq<char>, Seq<char>>,
) {
    match spec_parse(line) {
        Ok(c) => {
            let sm = spec_step(c, m);
            (spec_encode(sm.1), sm.0)
        },
        Err(e) => (spec_encode(Err(e)), m),
    }
}

/// Parses, dispatches and encodes one request line, per [`spec_process`]:
/// the pure `line in, line out` function the transport collaborator calls
/// once per received line.
pub fn process(input: &str, db: &mut Store) -> (r: String)
    ensures
        r@ == spec_process(input@, old(db)@).0,
        final(db)@ == spec_process(input@, old(db)@).1,
{
    match Cmd::from_str(input) {
        Ok(cmd) => prefix_output(cmd.handle(db)),
        Err(e) => prefix_output(Err(e)),
    }
}

} // verus!
