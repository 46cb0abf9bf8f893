//! Quoting an argument for a shell command line: POSIX shells, and the
//! Windows command interpreter.
use vstd::prelude::*;
use crate::text::{chars_of, string_of};

verus! {

/// Each `'` becomes `'\''` (close the quote, an escaped quote, reopen).
pub open spec fn escape_quotes(s: Seq<char>) -> Seq<char>
    decreases s.len(),
{
    if s.len() == 0 {
        Seq::empty()
    } else {
        escape_quotes(s.drop_last()) + if s.last() == '\'' {
            seq!['\'', '\\', '\'', '\'']
        } else {
            seq![s.last()]
        }
    }
}

/// `input` in single quotes, safe as one argument of a POSIX shell.
pub open spec fn quote_spec(input: Seq<char>) -> Seq<char> {
    seq!['\''] + escape_quotes(input) + seq!['\'']
}

/// Quote `input` as one argument for a POSIX shell.
pub fn quote(input: &str) -> (out: String)
    ensures
        out@ == quote_spec(input@),
{
    let s = chars_of(input);
    let mut v: Vec<char> = vec!['\''];
    let mut i: usize = 0;
    while i < s.len()
        invariant
            i <= s@.len(),
            v@ == seq!['\''] + escape_quotes(s@.take(i as int)),
        decreases s@.len() - i,
    {
        assert(s@.take(i + 1).drop_last() =~= s@.take(i as int));
        let c = s[i];
        if c == '\'' {
            v.push('\'');
            v.push('\\');
            v.push('\'');
            v.push('\'');
        } else {
            v.push(c);
        }
        i += 1;
        assert(v@ =~= seq!['\''] + escape_quotes(s@.take(i as int)));
    }
    assert(s@.take(i as int) =~= s@);
    v.push('\'');
    string_of(v.as_slice())
}

/// Each `"` becomes `\"`.
pub open spec fn escape_double(s: Seq<char>) -> Seq<char>
    decreases s.len(),
{
    if s.len() == 0 {
        Seq::empty()
    } else {
        escape_double(s.drop_last()) + if s.last() == '"' {
            seq!['\\', '"']
        } else {
            seq![s.last()]
        }
    }
}

/// `input` in double quotes, as one argument on a Windows command line.
pub open spec fn quote_windows_spec(input: Seq<char>) -> Seq<char> {
    seq!['"'] + escape_double(input) + seq!['"']
}

/// Quote `input` as one argument for the Windows command interpreter.
pub fn quote_windows(input: &str) -> (out: String)
    ensures
        out@ == quote_windows_spec(input@),
{
    let s = chars_of(input);
    let mut v: Vec<char> = vec!['"'];
    let mut i: usize = 0;
    while i < s.len()
        invariant
            i <= s@.len(),
            v@ == seq!['"'] + escape_double(s@.take(i as int)),
        decreases s@.len() - i,
    {
        assert(s@.take(i + 1).drop_last() =~= s@.take(i as int));
        let c = s[i];
        if c == '"' {
            v.push('\\');
            v.push('"');
        } else {
            v.push(c);
        }
        i += 1;
        assert(v@ =~= seq!['"'] + escape_double(s@.take(i as int)));
    }
    assert(s@.take(i as int) =~= s@);
    v.push('"');
    string_of(v.as_slice())
}

} // verus!
