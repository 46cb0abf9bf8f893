//! What the activity view shows of a tool call: untrusted text with its
//! control characters removed, so a file, page or command output cannot
//! drive the terminal, and long results cut short.
use vstd::prelude::*;
use crate::text::{chars_of, string_of, truncate_dots};

verus! {

broadcast use vstd::string::group_string_axioms;

/// The Unicode control characters (general category `Cc`, what
/// `char::is_control` tests).
pub open spec fn is_control(c: char) -> bool {
    (c as u32) <= 0x1f || (0x7f <= (c as u32) && (c as u32) <= 0x9f)
}

/// `text` without control characters other than newline and tab.
pub open spec fn sanitize_spec(text: Seq<char>) -> Seq<char>
    decreases text.len(),
{
    if text.len() == 0 {
        Seq::empty()
    } else {
        let c = text.last();
        sanitize_spec(text.drop_last()) + if c == '\n' || c == '\t' || !is_control(c) {
            seq![c]
        } else {
            Seq::empty()
        }
    }
}

/// Remove control characters other than newline and tab.
pub fn sanitize(text: &str) -> (out: String)
    ensures
        out@ == sanitize_spec(text@),
{
    let c = chars_of(text);
    let mut v: Vec<char> = Vec::new();
    let mut i: usize = 0;
    while i < c.len()
        invariant
            i <= c@.len(),
            v@ == sanitize_spec(c@.take(i as int)),
        decreases c@.len() - i,
    {
        assert(c@.take(i + 1).drop_last() =~= c@.take(i as int));
        let ch = c[i];
        let u = ch as u32;
        let ghost before = v@;
        if ch == '\n' || ch == '\t' || !(u <= 0x1f || (0x7f <= u && u <= 0x9f)) {
            v.push(ch);
            assert(v@ =~= before + seq![ch]);
        } else {
            assert(v@ =~= before + Seq::<char>::empty());
        }
        i += 1;
    }
    assert(c@.take(i as int) =~= c@);
    string_of(v.as_slice())
}

/// The part of a tool result the activity view keeps: at most 8000
/// characters (`...` marking a cut), control characters removed.
pub fn shown_result(result: &str) -> (out: String)
    ensures
        out@ == sanitize_spec(truncate_dots(result@, 8000)),
{
    let c = chars_of(result);
    let t = crate::text::truncate_with_dots(c.as_slice(), 8000);
    let s = string_of(t.as_slice());
    sanitize(s.as_str())
}

} // verus!
