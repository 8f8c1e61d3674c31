//! Character- and token-level text handling for the wire protocol: ASCII
//! whitespace, ASCII upper-casing, whitespace tokenization, and joining
//! tokens with single spaces.

use vstd::prelude::*;
use vstd::string::*;

verus! {

/// The ASCII whitespace characters that separate tokens on a wire line.
pub open spec fn is_ws_char(c: char) -> bool {
    c == ' ' || c == '\t' || c == '\n' || c == '\r' || c == '\x0c'
}

/// Decides [`is_ws_char`].
pub fn is_ws(c: char) -> (r: bool)
    ensures
        r == is_ws_char(c),
{
    c == ' ' || c == '\t' || c == '\n' || c == '\r' || c == '\x0c'
}

/// ASCII upper-casing of a single character; anything outside `a..=z` is kept.
pub open spec fn upper_char(c: char) -> char {
    if c == 'a' {
        'A'
    } else if c == 'b' {
        'B'
    } else if c == 'c' {
        'C'
    } else if c == 'd' {
        'D'
    } else if c == 'e' {
        'E'
    } else if c == 'f' {
        'F'
    } else if c == 'g' {
        'G'
    } else if c == 'h' {
        'H'
    } else if c == 'i' {
        'I'
    } else if c == 'j' {
        'J'
    } else if c == 'k' {
        'K'
    } else if c == 'l' {
        'L'
    } else if c == 'm' {
        'M'
    } else if c == 'n' {
        'N'
    } else if c == 'o' {
        'O'
    } else if c == 'p' {
        'P'
    } else if c == 'q' {
        'Q'
    } else if c == 'r' {
        'R'
    } else if c == 's' {
        'S'
    } else if c == 't' {
        'T'
    } else if c == 'u' {
        'U'
    } else if c == 'v' {
        'V'
    } else if c == 'w' {
        'W'
    } else if c == 'x' {
        'X'
    } else if c == 'y' {
        'Y'
    } else if c == 'z' {
        'Z'
    } else {
        c
    }
}

/// Computes [`upper_char`].
pub fn to_upper_char(c: char) -> (r: char)
    ensures
        r == upper_char(c),
{
    if c == 'a' {
        'A'
    } else if c == 'b' {
        'B'
    } else if c == 'c' {
        'C'
    } else if c == 'd' {
        'D'
    } else if c == 'e' {
        'E'
    } else if c == 'f' {
        'F'
    } else if c == 'g' {
        'G'
    } else if c == 'h' {
        'H'
    } else if c == 'i' {
        'I'
    } else if c == 'j' {
        'J'
    } else if c == 'k' {
        'K'
    } else if c == 'l' {
        'L'
    } else if c == 'm' {
        'M'
    } else if c == 'n' {
        'N'
    } else if c == 'o' {
        'O'
    } else if c == 'p' {
        'P'
    } else if c == 'q' {
        'Q'
    } else if c == 'r' {
        'R'
    } else if c == 's' {
        'S'
    } else if c == 't' {
        'T'
    } else if c == 'u' {
        'U'
    } else if c == 'v' {
        'V'
    } else if c == 'w' {
        'W'
    } else if c == 'x' {
        'X'
    } else if c == 'y' {
        'Y'
    } else if c == 'z' {
        'Z'
    } else {
        c
    }
}

/// ASCII upper-casing of a character sequence, character by character.
pub open spec fn upper_seq(s: Seq<char>) -> Seq<char> {
    Seq::new(s.len(), |i: int| upper_char(s[i]))
}

/// Relies on `String::push`: appends exactly the given character at the end.
#[verifier::external_body]
pub(crate) fn push_char(s: &mut String, c: char)
    ensures
        final(s)@ == old(s)@.push(c),
{
    s.push(c);
}

/// Decides whether two string slices hold the same characters.
pub fn str_eq(a: &str, b: &str) -> (r: bool)
    ensures
        r == (a@ == b@),
{
    let n = a.unicode_len();
    if n != b.unicode_len() {
        return false;
    }
    let mut i: usize = 0;
    while i < n
        invariant
            i <= n,
            n == a@.len(),
            n == b@.len(),
            forall|k: int| 0 <= k < i ==> a@[k] == b@[k],
        decreases n - i,
    {
        if a.get_char(i) != b.get_char(i) {
            return false;
        }
        i += 1;
    }
    proof {
        assert(a@ =~= b@);
    }
    true
}

/// ASCII-upper-cases a whole string slice.
pub fn to_upper(s: &str) -> (r: String)
    ensures
        r@ == upper_seq(s@),
{
    let n = s.unicode_len();
    let mut out = String::new();
    let mut i: usize = 0;
    while i < n
        invariant
            i <= n,
            n == s@.len(),
            out@ == upper_seq(s@).take(i as int),
        decreases n - i,
    {
        let c = s.get_char(i);
        push_char(&mut out, to_upper_char(c));
        proof {
            assert(out@ =~= upper_seq(s@).take(i + 1));
        }
        i += 1;
    }
    proof {
        assert(upper_seq(s@).take(n as int) =~= upper_seq(s@));
    }
    out
}

/// The input with its trailing ASCII whitespace (in particular a line
/// terminator) removed.
pub open spec fn trimmed_end(s: Seq<char>) -> Seq<char>
    decreases s.len(),
{
    if s.len() > 0 && is_ws_char(s.last()) {
        trimmed_end(s.drop_last())
    } else {
        s
    }
}

/// Length of the leading run of non-whitespace characters.
pub open spec fn token_len(s: Seq<char>) -> int
    decreases s.len(),
{
    if s.len() == 0 {
        0
    } else if is_ws_char(s.first()) {
        0
    } else {
        1 + token_len(s.drop_first())
    }
}

proof fn lemma_token_len_bounds(s: Seq<char>)
    ensures
        0 <= token_len(s) <= s.len(),
    decreases s.len(),
{
    if s.len() > 0 && !is_ws_char(s.first()) {
        lemma_token_len_bounds(s.drop_first());
    }
}

/// `token_len` is pinned down by its characteristic properties: every
/// character before `n` is non-whitespace and `n` is the end or whitespace.
pub proof fn lemma_token_len_is(s: Seq<char>, n: int)
    requires
        0 <= n <= s.len(),
        forall|k: int| 0 <= k < n ==> !is_ws_char(s[k]),
        n == s.len() || is_ws_char(s[n]),
    ensures
        token_len(s) == n,
    decreases n,
{
    if n == 0 {
    } else {
        assert(!is_ws_char(s[0]));
        let t = s.drop_first();
        assert(forall|k: int| 0 <= k < n - 1 ==> s[k + 1] == t[k] && !is_ws_char(s[k + 1]));
        lemma_token_len_is(t, n - 1);
    }
}

/// The whitespace-separated tokens of a line: runs of whitespace are
/// collapsed, leading and trailing whitespace is discarded.
pub open spec fn tokens_of(s: Seq<char>) -> Seq<Seq<char>>
    decreases s.len() via tokens_of_decreases
{
    if s.len() == 0 {
        Seq::empty()
    } else if is_ws_char(s.first()) {
        tokens_of(s.drop_first())
    } else {
        seq![s.take(token_len(s))] + tokens_of(s.skip(token_len(s)))
    }
}

#[via_fn]
proof fn tokens_of_decreases(s: Seq<char>) {
    if s.len() > 0 && !is_ws_char(s.first()) {
        lemma_token_len_bounds(s.drop_first());
    }
}

/// The tokens, rejoined with a single space between each pair of neighbours.
pub open spec fn join_space(ts: Seq<Seq<char>>) -> Seq<char>
    decreases ts.len(),
{
    if ts.len() == 0 {
        Seq::empty()
    } else if ts.len() == 1 {
        ts[0]
    } else {
        ts[0] + seq![' '] + join_space(ts.drop_first())
    }
}

/// Appending one more token joins it after a single space (or alone, when
/// there was nothing yet).
pub proof fn lemma_join_space_push(ts: Seq<Seq<char>>, t: Seq<char>)
    ensures
        join_space(ts.push(t)) == if ts.len() == 0 {
            t
        } else {
            join_space(ts) + seq![' '] + t
        },
    decreases ts.len(),
{
    let p = ts.push(t);
    if ts.len() == 0 {
        assert(p.len() == 1);
        assert(p[0] == t);
    } else {
        assert(p.len() >= 2);
        assert(p[0] == ts[0]);
        assert(p.drop_first() =~= ts.drop_first().push(t));
        lemma_join_space_push(ts.drop_first(), t);
        if ts.len() == 1 {
            assert(join_space(p) == ts[0] + seq![' '] + t);
            assert(join_space(ts) == ts[0]);
        } else {
            assert(join_space(p) == ts[0] + seq![' '] + (join_space(ts.drop_first()) + seq![' ']
                + t));
            assert(ts[0] + seq![' '] + (join_space(ts.drop_first()) + seq![' '] + t) =~= (ts[0]
                + seq![' '] + join_space(ts.drop_first())) + seq![' '] + t);
        }
    }
}

/// Splits a string slice into its whitespace-separated tokens.
pub fn tokenize(s: &str) -> (r: Vec<String>)
    ensures
        r.deep_view() == tokens_of(s@),
{
    let n = s.unicode_len();
    let mut r: Vec<String> = Vec::new();
    let mut i: usize = 0;
    proof {
        assert(r.deep_view() =~= Seq::<Seq<char>>::empty());
        assert(s@.skip(0) =~= s@);
        assert(r.deep_view() + tokens_of(s@) =~= tokens_of(s@));
    }
    while i < n
        invariant
            i <= n,
            n == s@.len(),
            tokens_of(s@) == r.deep_view() + tokens_of(s@.skip(i as int)),
        decreases n - i,
    {
        let c = s.get_char(i);
        if is_ws(c) {
            proof {
                let rem = s@.skip(i as int);
                assert(rem.first() == s@[i as int]);
                assert(rem.drop_first() =~= s@.skip(i + 1));
            }
            i += 1;
        } else {
            let start = i;
            let mut j: usize = i;
            while j < n && !is_ws(s.get_char(j))
                invariant
                    start <= j <= n,
                    n == s@.len(),
                    forall|k: int| start <= k < j ==> !is_ws_char(s@[k]),
                decreases n - j,
            {
                j += 1;
            }
            let token = s.substring_char(start, j).to_owned();
            r.push(token);
            proof {
                let rem = s@.skip(start as int);
                let m = (j - start) as int;
                assert(forall|k: int| 0 <= k < m ==> rem[k] == s@[start + k] && !is_ws_char(
                    s@[start + k],
                ));
                if m < rem.len() {
                    assert(rem[m] == s@[j as int]);
                }
                lemma_token_len_is(rem, m);
                assert(rem.take(m) =~= s@.subrange(start as int, j as int));
                assert(rem.skip(m) =~= s@.skip(j as int));
                assert(!is_ws_char(rem.first()));
                assert(tokens_of(rem) == seq![s@.subrange(start as int, j as int)] + tokens_of(
                    s@.skip(j as int),
                ));
                assert(r.deep_view() =~= r.deep_view().subrange(0, r.deep_view().len() - 1).push(
                    s@.subrange(start as int, j as int),
                ));
            }
            i = j;
        }
    }
    proof {
        assert(s@.skip(n as int) =~= Seq::<char>::empty());
        assert(tokens_of(s@) =~= r.deep_view());
    }
    r
}

/// Joins the tokens from position `from` on with single spaces.
pub fn join_tokens(args: &Vec<String>, from: usize) -> (r: String)
    requires
        from <= args@.len(),
    ensures
        r@ == join_space(args.deep_view().skip(from as int)),
{
    let mut out = String::new();
    let mut i: usize = from;
    while i < args.len()
        invariant
            from <= i <= args@.len(),
            out@ == join_space(args.deep_view().subrange(from as int, i as int)),
        decreases args@.len() - i,
    {
        let ghost prev = out@;
        if i > from {
            push_char(&mut out, ' ');
            proof {
                assert(out@ =~= prev + seq![' ']);
            }
        }
        out.append(args[i].as_str());
        proof {
            let dv = args.deep_view();
            let prefix = dv.subrange(from as int, i as int);
            lemma_join_space_push(prefix, dv[i as int]);
            assert(prefix.push(dv[i as int]) =~= dv.subrange(from as int, i + 1));
            assert(dv[i as int] == args@[i as int]@);
            if i > from {
                assert(out@ =~= (prev + seq![' ']) + args@[i as int]@);
                assert(prev + seq![' '] + args@[i as int]@ =~= (prev + seq![' ']) + args@[i
                    as int]@);
            } else {
                assert(prefix.len() == 0);
                assert(out@ =~= args@[i as int]@);
            }
        }
        i += 1;
    }
    proof {
        assert(args.deep_view().subrange(from as int, args.deep_view().len() as int)
            =~= args.deep_view().skip(from as int));
    }
    out
}

} // verus!
