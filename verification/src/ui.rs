//! Terminal presentation: ANSI styling that is switched off entirely when the
//! caller says color is not wanted (output is not a TTY, or `NO_COLOR` is set),
//! plus the fixed prompt, header and badge strings built from it.
use vstd::prelude::*;
use crate::text::{chars_of, extend_str, string_of};

verus! {

broadcast use vstd::string::group_string_axioms;

/// `text` wrapped in the SGR sequence `codes` when `color` is on, else `text`.
pub open spec fn styled(codes: Seq<char>, text: Seq<char>, color: bool) -> Seq<char> {
    if color {
        "\x1b["@ + codes + "m"@ + text + "\x1b[0m"@
    } else {
        text
    }
}

pub open spec fn dim_spec(s: Seq<char>, color: bool) -> Seq<char> { styled("2"@, s, color) }
pub open spec fn bold_spec(s: Seq<char>, color: bool) -> Seq<char> { styled("1"@, s, color) }
pub open spec fn cyan_spec(s: Seq<char>, color: bool) -> Seq<char> { styled("38;5;44"@, s, color) }
pub open spec fn green_spec(s: Seq<char>, color: bool) -> Seq<char> { styled("38;5;42"@, s, color) }
pub open spec fn yellow_spec(s: Seq<char>, color: bool) -> Seq<char> { styled("38;5;214"@, s, color) }
pub open spec fn red_spec(s: Seq<char>, color: bool) -> Seq<char> { styled("38;5;203"@, s, color) }
pub open spec fn grey_spec(s: Seq<char>, color: bool) -> Seq<char> { styled("38;5;245"@, s, color) }

/// Styling as a character vector.
pub fn paint_chars(codes: &str, text: &[char], color: bool) -> (out: Vec<char>)
    ensures
        out@ == styled(codes@, text@, color),
{
    if color {
        let mut v: Vec<char> = Vec::new();
        extend_str(&mut v, "\x1b[");
        extend_str(&mut v, codes);
        extend_str(&mut v, "m");
        crate::text::extend_chars(&mut v, text);
        extend_str(&mut v, "\x1b[0m");
        v
    } else {
        crate::text::slice_chars(text, 0, text.len())
    }
}

fn paint(codes: &str, text: &str, color: bool) -> (out: String)
    ensures
        out@ == styled(codes@, text@, color),
{
    let t = chars_of(text);
    let v = paint_chars(codes, t.as_slice(), color);
    string_of(v.as_slice())
}

pub fn dim(s: &str, color: bool) -> (out: String)
    ensures out@ == dim_spec(s@, color),
{
    paint("2", s, color)
}

pub fn bold(s: &str, color: bool) -> (out: String)
    ensures out@ == bold_spec(s@, color),
{
    paint("1", s, color)
}

pub fn cyan(s: &str, color: bool) -> (out: String)
    ensures out@ == cyan_spec(s@, color),
{
    paint("38;5;44", s, color)
}

pub fn green(s: &str, color: bool) -> (out: String)
    ensures out@ == green_spec(s@, color),
{
    paint("38;5;42", s, color)
}

pub fn yellow(s: &str, color: bool) -> (out: String)
    ensures out@ == yellow_spec(s@, color),
{
    paint("38;5;214", s, color)
}

pub fn red(s: &str, color: bool) -> (out: String)
    ensures out@ == red_spec(s@, color),
{
    paint("38;5;203", s, color)
}

pub fn grey(s: &str, color: bool) -> (out: String)
    ensures out@ == grey_spec(s@, color),
{
    paint("38;5;245", s, color)
}

/// `a + sep + b` as a string.
fn join2(a: &str, sep: &str, b: &str) -> (out: String)
    ensures
        out@ == a@ + sep@ + b@,
{
    let mut v = chars_of(a);
    extend_str(&mut v, sep);
    extend_str(&mut v, b);
    string_of(v.as_slice())
}

/// The styled prompt shown at the input line.
pub fn user_prompt(color: bool) -> (out: String)
    ensures
        out@ == cyan_spec(bold_spec("❯"@, color), color) + " "@,
{
    let b = bold("❯", color);
    let c = cyan(b.as_str(), color);
    let mut v = chars_of(c.as_str());
    extend_str(&mut v, " ");
    string_of(v.as_slice())
}

/// Header printed just before the assistant's streamed answer.
pub fn assistant_header(color: bool) -> (out: String)
    ensures
        out@ == cyan_spec(bold_spec("●"@, color), color) + " "@ + bold_spec(
            cyan_spec("biscuit"@, color),
            color,
        ),
{
    let b = bold("●", color);
    let left = cyan(b.as_str(), color);
    let c = cyan("biscuit", color);
    let right = bold(c.as_str(), color);
    join2(left.as_str(), " ", right.as_str())
}

/// Style the persistent bottom status-bar line.
pub fn status_bar(content: &str, color: bool) -> (out: String)
    ensures
        out@ == cyan_spec("●"@, color) + " "@ + grey_spec(content@, color),
{
    let left = cyan("●", color);
    let right = grey(content, color);
    join2(left.as_str(), " ", right.as_str())
}

/// Badge shown at startup when ultracode (max-effort) mode is on.
pub fn ultracode_badge(color: bool) -> (out: String)
    ensures
        out@ == bold_spec(cyan_spec("⚡ ultracode on"@, color), color) + " "@ + grey_spec(
            "— max effort: decompose, fan out to sub-agents, verify"@,
            color,
        ),
{
    let c = cyan("⚡ ultracode on", color);
    let left = bold(c.as_str(), color);
    let right = grey("— max effort: decompose, fan out to sub-agents, verify", color);
    join2(left.as_str(), " ", right.as_str())
}

/// A stopped notice: a yellow square and the text.
pub fn stopped(text: &str, color: bool) -> (out: String)
    ensures
        out@ == yellow_spec("■"@, color) + " "@ + yellow_spec(text@, color),
{
    let left = yellow("■", color);
    let right = yellow(text, color);
    join2(left.as_str(), " ", right.as_str())
}

/// An error line: a red cross and the text.
pub fn error(text: &str, color: bool) -> (out: String)
    ensures
        out@ == red_spec("✗"@, color) + " "@ + red_spec(text@, color),
{
    let left = red("✗", color);
    let right = red(text, color);
    join2(left.as_str(), " ", right.as_str())
}

/// Without color, styling leaves text untouched.
pub proof fn law_plain_styling_is_identity(codes: Seq<char>, s: Seq<char>)
    ensures
        styled(codes, s, false) == s,
{
}

} // verus!
