//! A small Markdown-to-terminal renderer for the assistant's answers:
//! headings, bold/italic, inline code, fenced code blocks, bullet and numbered
//! lists, blockquotes and horizontal rules. Styling goes through `ui`, so with
//! color off the structure (glyphs, indentation) survives without ANSI codes.
use vstd::prelude::*;
use crate::text::{chars_of, extend_chars, extend_str, slice_chars, string_of, trim_end, trim_end_index, trim_chars, trim, trim_start, trim_start_index, is_digit};
use crate::ui::{styled, paint_chars, grey_spec, cyan_spec, bold_spec, yellow_spec, dim_spec};

verus! {

broadcast use vstd::string::group_string_axioms;

// ---------------------------------------------------------------------------
// Lines
// ---------------------------------------------------------------------------

/// Offset of the first `'\n'` in `s`, or `s.len()` when there is none.
pub open spec fn nl_index(s: Seq<char>) -> nat
    decreases s.len(),
{
    if s.len() == 0 {
        0
    } else if s[0] == '\n' {
        0
    } else {
        1 + nl_index(s.drop_first())
    }
}

/// The lines of `s` as `str::lines` yields them: split at `'\n'`, a `'\r'`
/// before the `'\n'` dropped, and no empty line after a final `'\n'`.
pub open spec fn lines(s: Seq<char>) -> Seq<Seq<char>>
    decreases s.len(),
{
    if s.len() == 0 {
        Seq::empty()
    } else {
        let j = nl_index(s);
        if j >= s.len() {
            seq![s]
        } else {
            let l = s.take(j as int);
            let l = if l.len() > 0 && l.last() == '\r' { l.drop_last() } else { l };
            seq![l] + lines(s.skip(j + 1 as int))
        }
    }
}

/// `ls` joined with `'\n'`.
pub open spec fn join_lines(ls: Seq<Seq<char>>) -> Seq<char>
    decreases ls.len(),
{
    if ls.len() == 0 {
        Seq::empty()
    } else if ls.len() == 1 {
        ls[0]
    } else {
        ls[0] + seq!['\n'] + join_lines(ls.drop_first())
    }
}

proof fn lemma_nl_index(s: Seq<char>)
    ensures
        nl_index(s) <= s.len(),
        forall|k: int| 0 <= k < nl_index(s) ==> s[k] != '\n',
        nl_index(s) < s.len() ==> s[nl_index(s) as int] == '\n',
    decreases s.len(),
{
    if s.len() > 0 && s[0] != '\n' {
        lemma_nl_index(s.drop_first());
        assert forall|k: int| 0 <= k < nl_index(s) implies s[k] != '\n' by {
            if k > 0 {
                assert(s[k] == s.drop_first()[k - 1]);
            }
        }
    }
}

proof fn lemma_nl_index_skip(s: Seq<char>, i: int, j: int)
    requires
        0 <= i <= j <= s.len(),
        forall|k: int| i <= k < j ==> s[k] != '\n',
        j == s.len() || s[j] == '\n',
    ensures
        nl_index(s.skip(i)) == j - i,
    decreases j - i,
{
    if i < j {
        lemma_nl_index_skip(s, i + 1, j);
        assert(s.skip(i).drop_first() =~= s.skip(i + 1));
    } else if j < s.len() {
        assert(s.skip(i)[0] == s[j]);
    }
}

/// The lines of `s` (`str::lines`).
pub fn split_lines(s: &[char]) -> (out: Vec<Vec<char>>)
    ensures
        out@.map_values(|v: Vec<char>| v@) == lines(s@),
{
    let mut out: Vec<Vec<char>> = Vec::new();
    let mut i: usize = 0;
    assert(s@.skip(0) =~= s@);
    while i < s.len()
        invariant
            i <= s@.len(),
            lines(s@) == out@.map_values(|v: Vec<char>| v@) + lines(s@.skip(i as int)),
        decreases s@.len() - i,
    {
        let mut j = i;
        while j < s.len() && s[j] != '\n'
            invariant
                i <= j <= s@.len(),
                forall|k: int| i <= k < j ==> s@[k] != '\n',
            decreases s@.len() - j,
        {
            j += 1;
        }
        proof {
            lemma_nl_index_skip(s@, i as int, j as int);
        }
        let ghost rest = s@.skip(i as int);
        let mut line = slice_chars(s, i, j);
        assert(line@ =~= rest.take((j - i) as int));
        if j < s.len() {
            if line.len() > 0 && line[line.len() - 1] == '\r' {
                line.pop();
            }
            assert(rest.skip(j - i + 1) =~= s@.skip(j + 1));
        }
        let ghost before = out@.map_values(|v: Vec<char>| v@);
        out.push(line);
        assert(out@.map_values(|v: Vec<char>| v@) =~= before.push(line@));
        if j < s.len() {
            i = j + 1;
        } else {
            assert(s@.skip(s@.len() as int) =~= Seq::<char>::empty());
            i = j;
        }
        assert(before + lines(rest) =~= out@.map_values(|v: Vec<char>| v@) + lines(s@.skip(i as int)));
    }
    assert(s@.skip(i as int) =~= Seq::<char>::empty());
    assert(out@.map_values(|v: Vec<char>| v@) + Seq::<Seq<char>>::empty() =~= out@.map_values(|v: Vec<char>| v@));
    out
}

// ---------------------------------------------------------------------------
// Inline styling
// ---------------------------------------------------------------------------

/// Distance from `from` to the first `c` at or after it (or to the end).
pub open spec fn find_off(t: Seq<char>, from: int, c: char) -> nat
    decreases t.len() - from,
{
    if from >= t.len() || from < 0 {
        0
    } else if t[from] == c {
        0
    } else {
        1 + find_off(t, from + 1, c)
    }
}

/// Distance from `from` to the first `**` at or after it; when there is none
/// the result points past the last place a `**` could start.
pub open spec fn stars_off(t: Seq<char>, from: int) -> nat
    decreases t.len() - from,
{
    if from + 2 > t.len() || from < 0 {
        0
    } else if t[from] == '*' && t[from + 1] == '*' {
        0
    } else {
        1 + stars_off(t, from + 1)
    }
}

/// Inline styling of `t` from position `i`: `` `code` `` in yellow, `**bold**`
/// in bold, `*italic*` / `_italic_` dimmed; an unterminated marker stays
/// literal.
pub open spec fn inline_from(t: Seq<char>, i: int, color: bool) -> Seq<char>
    decreases t.len() - i,
{
    if i >= t.len() || i < 0 {
        Seq::empty()
    } else {
        let c = t[i];
        if c == '`' {
            let j = i + 1 + find_off(t, i + 1, '`');
            if j < t.len() {
                yellow_spec(t.subrange(i + 1, j), color) + inline_from(t, j + 1, color)
            } else {
                seq![c] + inline_from(t, i + 1, color)
            }
        } else if c == '*' && i + 1 < t.len() && t[i + 1] == '*' {
            let j = i + 2 + stars_off(t, i + 2);
            if t.len() - j >= 2 {
                bold_spec(t.subrange(i + 2, j), color) + inline_from(t, j + 2, color)
            } else {
                seq![c] + inline_from(t, i + 1, color)
            }
        } else if (c == '*' || c == '_') && i + 1 < t.len() && t[i + 1] != c {
            let j = i + 1 + find_off(t, i + 1, c);
            if j < t.len() {
                dim_spec(t.subrange(i + 1, j), color) + inline_from(t, j + 1, color)
            } else {
                seq![c] + inline_from(t, i + 1, color)
            }
        } else {
            seq![c] + inline_from(t, i + 1, color)
        }
    }
}

pub open spec fn inline(t: Seq<char>, color: bool) -> Seq<char> {
    inline_from(t, 0, color)
}

fn find_close(t: &[char], from: usize, c: char) -> (j: usize)
    requires
        from <= t@.len(),
    ensures
        j == from + find_off(t@, from as int, c),
        j <= t@.len(),
{
    let mut j = from;
    while j < t.len() && t[j] != c
        invariant
            from <= j <= t@.len(),
            from + find_off(t@, from as int, c) == j + find_off(t@, j as int, c),
        decreases t@.len() - j,
    {
        j += 1;
    }
    j
}

fn find_close_stars(t: &[char], from: usize) -> (j: usize)
    requires
        from <= t@.len(),
    ensures
        j == from + stars_off(t@, from as int),
        j <= t@.len(),
{
    let mut j = from;
    while j < t.len() && t.len() - j >= 2 && !(t[j] == '*' && t[j + 1] == '*')
        invariant
            from <= j <= t@.len(),
            from + stars_off(t@, from as int) == j + stars_off(t@, j as int),
        decreases t@.len() - j,
    {
        j += 1;
    }
    j
}

/// Apply inline styling.
pub fn render_inline(t: &[char], color: bool) -> (out: Vec<char>)
    ensures
        out@ == inline(t@, color),
{
    let mut out: Vec<char> = Vec::new();
    let mut i: usize = 0;
    while i < t.len()
        invariant
            i <= t@.len(),
            inline(t@, color) == out@ + inline_from(t@, i as int, color),
        decreases t@.len() - i,
    {
        let c = t[i];
        let ghost o = out@;
        if c == '`' {
            let j = find_close(t, i + 1, '`');
            if j < t.len() {
                let span = slice_chars(t, i + 1, j);
                let styled = paint_chars("38;5;214", span.as_slice(), color);
                extend_chars(&mut out, styled.as_slice());
                assert(o + (styled@ + inline_from(t@, j + 1, color)) =~= out@ + inline_from(t@, j + 1, color));
                i = j + 1;
                continue;
            }
        } else if c == '*' && i + 1 < t.len() && t[i + 1] == '*' {
            let j = find_close_stars(t, i + 2);
            if t.len() - j >= 2 {
                let span = slice_chars(t, i + 2, j);
                let styled = paint_chars("1", span.as_slice(), color);
                extend_chars(&mut out, styled.as_slice());
                assert(o + (styled@ + inline_from(t@, j + 2, color)) =~= out@ + inline_from(t@, j + 2, color));
                i = j + 2;
                continue;
            }
        } else if (c == '*' || c == '_') && i + 1 < t.len() && t[i + 1] != c {
            let j = find_close(t, i + 1, c);
            if j < t.len() {
                let span = slice_chars(t, i + 1, j);
                let styled = paint_chars("2", span.as_slice(), color);
                extend_chars(&mut out, styled.as_slice());
                assert(o + (styled@ + inline_from(t@, j + 1, color)) =~= out@ + inline_from(t@, j + 1, color));
                i = j + 1;
                continue;
            }
        }
        out.push(c);
        assert(o + (seq![c] + inline_from(t@, i + 1, color)) =~= out@ + inline_from(t@, i + 1, color));
        i += 1;
    }
    assert(out@ + inline_from(t@, i as int, color) =~= out@);
    out
}

// ---------------------------------------------------------------------------
// Block structure
// ---------------------------------------------------------------------------

/// A fence line (after `trim_end`): starts with ``` or ~~~ once leading
/// whitespace is skipped.
pub open spec fn is_fence(t: Seq<char>) -> bool {
    let u = trim_start(t);
    u.len() >= 3 && ((u[0] == '`' && u[1] == '`' && u[2] == '`') || (u[0] == '~' && u[1] == '~'
        && u[2] == '~'))
}

pub open spec fn all_are(t: Seq<char>, c: char) -> bool {
    forall|k: int| 0 <= k < t.len() ==> t[k] == c
}

/// A horizontal rule: at least three of the same `-`, `*` or `_`.
pub open spec fn is_hr(t: Seq<char>) -> bool {
    let u = trim(t);
    u.len() >= 3 && (all_are(u, '-') || all_are(u, '*') || all_are(u, '_'))
}

/// Number of leading characters of `t` equal to `c`.
pub open spec fn count_leading(t: Seq<char>, c: char) -> nat
    decreases t.len(),
{
    if t.len() > 0 && t[0] == c {
        1 + count_leading(t.drop_first(), c)
    } else {
        0
    }
}

/// Number of leading ASCII digits of `t`.
pub open spec fn count_digits(t: Seq<char>) -> nat
    decreases t.len(),
{
    if t.len() > 0 && is_digit(t[0]) {
        1 + count_digits(t.drop_first())
    } else {
        0
    }
}

/// An ATX heading: 1 to 6 `#`, then a space.
pub open spec fn is_heading(t: Seq<char>) -> bool {
    let level = count_leading(t, '#');
    1 <= level <= 6 && level < t.len() && t[level as int] == ' '
}

/// A blockquote line starts with `>`.
pub open spec fn is_quote(t: Seq<char>) -> bool {
    t.len() > 0 && t[0] == '>'
}

pub open spec fn quote_body(t: Seq<char>) -> Seq<char> {
    if t.len() >= 2 && t[1] == ' ' { t.skip(2) } else { t.skip(1) }
}

/// A bullet item: leading spaces, then `- `, `* ` or `+ `.
pub open spec fn is_bullet(line: Seq<char>) -> bool {
    let k = count_leading(line, ' ');
    let body = line.skip(k as int);
    body.len() >= 2 && (body[0] == '-' || body[0] == '*' || body[0] == '+') && body[1] == ' '
}

/// A numbered item: leading spaces, digits, then `. ` or `) `.
pub open spec fn is_numbered(line: Seq<char>) -> bool {
    let k = count_leading(line, ' ');
    let body = line.skip(k as int);
    let d = count_digits(body);
    let rest = body.skip(d as int);
    d >= 1 && rest.len() >= 2 && (rest[0] == '.' || rest[0] == ')') && rest[1] == ' '
}

/// How one non-code line renders.
pub open spec fn render_plain(line: Seq<char>, color: bool) -> Seq<char> {
    let t = trim_end(line);
    if is_hr(t) {
        grey_spec("────────────────────"@, color)
    } else if is_heading(t) {
        let level = count_leading(t, '#');
        let rendered = inline(t.skip(level + 1 as int), color);
        if level == 1 {
            bold_spec(cyan_spec(seq!['#', ' '] + rendered, color), color)
        } else if level == 2 {
            bold_spec(cyan_spec(rendered, color), color)
        } else {
            bold_spec(rendered, color)
        }
    } else if is_quote(t) {
        grey_spec("│"@, color) + seq![' '] + grey_spec(inline(quote_body(t), color), color)
    } else if is_bullet(line) {
        let k = count_leading(line, ' ');
        line.take(k as int) + cyan_spec("•"@, color) + seq![' '] + inline(line.skip(k + 2 as int), color)
    } else if is_numbered(line) {
        let k = count_leading(line, ' ');
        let body = line.skip(k as int);
        let d = count_digits(body);
        line.take(k as int) + cyan_spec(body.take(d as int).push('.'), color) + seq![' '] + inline(
            body.skip(d + 2 as int),
            color,
        )
    } else {
        inline(line, color)
    }
}

/// Rendered lines for `ls`, with `in_code` telling whether a fenced block is
/// open. Fence lines toggle the block and print nothing; code lines are
/// indented by four spaces and greyed.
pub open spec fn render_from(ls: Seq<Seq<char>>, in_code: bool, color: bool) -> Seq<Seq<char>>
    decreases ls.len(),
{
    if ls.len() == 0 {
        Seq::empty()
    } else {
        let line = ls[0];
        if is_fence(trim_end(line)) {
            render_from(ls.drop_first(), !in_code, color)
        } else if in_code {
            seq![seq![' ', ' ', ' ', ' '] + grey_spec(line, color)] + render_from(ls.drop_first(), in_code, color)
        } else {
            seq![render_plain(line, color)] + render_from(ls.drop_first(), in_code, color)
        }
    }
}

/// The terminal rendering of Markdown `source`.
pub open spec fn render_spec(source: Seq<char>, color: bool) -> Seq<char> {
    join_lines(render_from(lines(source), false, color))
}

fn count_leading_exec(t: &[char], c: char) -> (k: usize)
    ensures
        k == count_leading(t@, c),
        k <= t@.len(),
{
    let mut k: usize = 0;
    assert(t@.skip(0) =~= t@);
    while k < t.len() && t[k] == c
        invariant
            k <= t@.len(),
            count_leading(t@, c) == k + count_leading(t@.skip(k as int), c),
        decreases t@.len() - k,
    {
        assert(t@.skip(k as int).drop_first() =~= t@.skip(k + 1));
        k += 1;
    }
    k
}

fn count_digits_exec(t: &[char]) -> (k: usize)
    ensures
        k == count_digits(t@),
        k <= t@.len(),
{
    let mut k: usize = 0;
    assert(t@.skip(0) =~= t@);
    while k < t.len() && '0' <= t[k] && t[k] <= '9'
        invariant
            k <= t@.len(),
            count_digits(t@) == k + count_digits(t@.skip(k as int)),
        decreases t@.len() - k,
    {
        assert(t@.skip(k as int).drop_first() =~= t@.skip(k + 1));
        k += 1;
    }
    k
}

fn all_are_exec(t: &[char], c: char) -> (b: bool)
    ensures
        b == all_are(t@, c),
{
    let mut k: usize = 0;
    while k < t.len()
        invariant
            k <= t@.len(),
            forall|m: int| 0 <= m < k ==> t@[m] == c,
        decreases t@.len() - k,
    {
        if t[k] != c {
            return false;
        }
        k += 1;
    }
    true
}

fn is_fence_exec(t: &[char]) -> (b: bool)
    ensures
        b == is_fence(t@),
{
    let a = trim_start_index(t);
    let u = slice_chars(t, a, t.len());
    assert(u@ =~= t@.skip(a as int));
    u.len() >= 3 && ((u[0] == '`' && u[1] == '`' && u[2] == '`') || (u[0] == '~' && u[1] == '~'
        && u[2] == '~'))
}

fn is_hr_exec(t: &[char]) -> (b: bool)
    ensures
        b == is_hr(t@),
{
    let u = trim_chars(t);
    u.len() >= 3 && (all_are_exec(u.as_slice(), '-') || all_are_exec(u.as_slice(), '*')
        || all_are_exec(u.as_slice(), '_'))
}

fn render_plain_exec(line: &[char], color: bool) -> (out: Vec<char>)
    ensures
        out@ == render_plain(line@, color),
{
    let e = trim_end_index(line);
    let t = slice_chars(line, 0, e);
    assert(t@ =~= trim_end(line@));
    if is_hr_exec(t.as_slice()) {
        let v = chars_of("────────────────────");
        return paint_chars("38;5;245", v.as_slice(), color);
    }
    let level = count_leading_exec(t.as_slice(), '#');
    if 1 <= level && level <= 6 && level < t.len() && t[level] == ' ' {
        let rest = slice_chars(t.as_slice(), level + 1, t.len());
        assert(rest@ =~= t@.skip(level + 1));
        let rendered = render_inline(rest.as_slice(), color);
        if level == 1 {
            let mut h: Vec<char> = vec!['#', ' '];
            extend_chars(&mut h, rendered.as_slice());
            let c = paint_chars("38;5;44", h.as_slice(), color);
            return paint_chars("1", c.as_slice(), color);
        } else if level == 2 {
            let c = paint_chars("38;5;44", rendered.as_slice(), color);
            return paint_chars("1", c.as_slice(), color);
        } else {
            return paint_chars("1", rendered.as_slice(), color);
        }
    }
    if t.len() > 0 && t[0] == '>' {
        let body = if t.len() >= 2 && t[1] == ' ' {
            slice_chars(t.as_slice(), 2, t.len())
        } else {
            slice_chars(t.as_slice(), 1, t.len())
        };
        assert(body@ =~= quote_body(t@));
        let bar = chars_of("│");
        let mut out = paint_chars("38;5;245", bar.as_slice(), color);
        out.push(' ');
        let inner = render_inline(body.as_slice(), color);
        let g = paint_chars("38;5;245", inner.as_slice(), color);
        extend_chars(&mut out, g.as_slice());
        return out;
    }
    let k = count_leading_exec(line, ' ');
    let body = slice_chars(line, k, line.len());
    assert(body@ =~= line@.skip(k as int));
    if body.len() >= 2 && (body[0] == '-' || body[0] == '*' || body[0] == '+') && body[1] == ' ' {
        let mut out = slice_chars(line, 0, k);
        let dot = chars_of("•");
        let c = paint_chars("38;5;44", dot.as_slice(), color);
        extend_chars(&mut out, c.as_slice());
        out.push(' ');
        let rest = slice_chars(line, k + 2, line.len());
        assert(rest@ =~= line@.skip(k + 2));
        let r = render_inline(rest.as_slice(), color);
        extend_chars(&mut out, r.as_slice());
        return out;
    }
    let d = count_digits_exec(body.as_slice());
    let after = slice_chars(body.as_slice(), d, body.len());
    assert(after@ =~= body@.skip(d as int));
    if d >= 1 && after.len() >= 2 && (after[0] == '.' || after[0] == ')') && after[1] == ' ' {
        let mut out = slice_chars(line, 0, k);
        let mut num = slice_chars(body.as_slice(), 0, d);
        num.push('.');
        let c = paint_chars("38;5;44", num.as_slice(), color);
        extend_chars(&mut out, c.as_slice());
        out.push(' ');
        let rest = slice_chars(body.as_slice(), d + 2, body.len());
        assert(rest@ =~= body@.skip(d + 2));
        let r = render_inline(rest.as_slice(), color);
        extend_chars(&mut out, r.as_slice());
        return out;
    }
    render_inline(line, color)
}

/// Render Markdown `source` to a terminal string; `color` turns ANSI
/// styling on.
pub fn render(source: &str, color: bool) -> (out: String)
    ensures
        out@ == render_spec(source@, color),
{
    let src = chars_of(source);
    let ls = split_lines(src.as_slice());
    let ghost all = ls@.map_values(|v: Vec<char>| v@);
    let mut rendered: Vec<Vec<char>> = Vec::new();
    let mut in_code = false;
    let mut i: usize = 0;
    assert(all.skip(0) =~= all);
    assert(rendered@.map_values(|v: Vec<char>| v@) + render_from(all, false, color) =~= render_from(all, false, color));
    while i < ls.len()
        invariant
            i <= ls@.len(),
            all == ls@.map_values(|v: Vec<char>| v@),
            all == lines(source@),
            render_from(all, false, color) == rendered@.map_values(|v: Vec<char>| v@) + render_from(
                all.skip(i as int),
                in_code,
                color,
            ),
        decreases ls@.len() - i,
    {
        let line = &ls[i];
        let ghost rest = all.skip(i as int);
        assert(rest[0] == line@);
        assert(rest.drop_first() =~= all.skip(i + 1));
        let e = trim_end_index(line.as_slice());
        let t = slice_chars(line.as_slice(), 0, e);
        assert(t@ =~= trim_end(line@));
        let ghost before = rendered@.map_values(|v: Vec<char>| v@);
        if is_fence_exec(t.as_slice()) {
            in_code = !in_code;
        } else if in_code {
            let mut v: Vec<char> = vec![' ', ' ', ' ', ' '];
            let g = paint_chars("38;5;245", line.as_slice(), color);
            extend_chars(&mut v, g.as_slice());
            rendered.push(v);
            assert(rendered@.map_values(|v: Vec<char>| v@) =~= before.push(v@));
        } else {
            let v = render_plain_exec(line.as_slice(), color);
            rendered.push(v);
            assert(rendered@.map_values(|v: Vec<char>| v@) =~= before.push(v@));
        }
        i += 1;
    }
    let ghost rl = rendered@.map_values(|v: Vec<char>| v@);
    assert(all.skip(i as int) =~= Seq::<Seq<char>>::empty());
    assert(rl + Seq::<Seq<char>>::empty() =~= rl);
    let mut out: Vec<char> = Vec::new();
    let mut k: usize = 0;
    while k < rendered.len()
        invariant
            k <= rendered@.len(),
            rl == rendered@.map_values(|v: Vec<char>| v@),
            join_lines(rl) == out@ + (if k == 0 { join_lines(rl) } else { join_tail(rl.skip(k as int)) }),
        decreases rendered@.len() - k,
    {
        let ghost o = out@;
        if k > 0 {
            out.push('\n');
        }
        extend_chars(&mut out, rendered[k].as_slice());
        proof {
            lemma_join_step(rl, k as int);
            if k == 0 {
                assert(o =~= Seq::<char>::empty());
            }
        }
        k += 1;
    }
    proof {
        if k > 0 {
            assert(rl.skip(k as int) =~= Seq::<Seq<char>>::empty());
        } else {
            assert(rl =~= Seq::<Seq<char>>::empty());
        }
        assert(out@ + Seq::<char>::empty() =~= out@);
    }
    string_of(out.as_slice())
}

/// What still has to be appended after the first lines of a join: each
/// remaining line preceded by `'\n'`.
pub open spec fn join_tail(ls: Seq<Seq<char>>) -> Seq<char>
    decreases ls.len(),
{
    if ls.len() == 0 {
        Seq::empty()
    } else {
        seq!['\n'] + ls[0] + join_tail(ls.drop_first())
    }
}

proof fn lemma_join_is_head_tail(ls: Seq<Seq<char>>)
    requires
        ls.len() > 0,
    ensures
        join_lines(ls) == ls[0] + join_tail(ls.drop_first()),
    decreases ls.len(),
{
    if ls.len() == 1 {
        assert(ls[0] + Seq::<char>::empty() =~= ls[0]);
    } else {
        lemma_join_is_head_tail(ls.drop_first());
        assert(ls.drop_first().drop_first() =~= ls.drop_first().drop_first());
        assert(ls[0] + seq!['\n'] + join_lines(ls.drop_first()) =~= ls[0] + (seq!['\n'] + ls.drop_first()[0]
            + join_tail(ls.drop_first().drop_first())));
    }
}

proof fn lemma_join_step(ls: Seq<Seq<char>>, k: int)
    requires
        0 <= k < ls.len(),
    ensures
        k == 0 ==> join_lines(ls) == ls[0] + join_tail(ls.skip(1)),
        k > 0 ==> join_tail(ls.skip(k)) == seq!['\n'] + ls[k] + join_tail(ls.skip(k + 1)),
{
    if k == 0 {
        lemma_join_is_head_tail(ls);
        assert(ls.drop_first() =~= ls.skip(1));
    } else {
        assert(ls.skip(k).drop_first() =~= ls.skip(k + 1));
    }
}

/// Three or more of the same `-`, `*` or `_`, alone on a line (whitespace
/// around them aside), make a horizontal rule; a line made only of such
/// characters renders as the grey rule.
pub proof fn law_rule_lines_draw_rules(t: Seq<char>, line: Seq<char>, c: char, color: bool)
    requires
        c == '-' || c == '*' || c == '_',
    ensures
        trim(t).len() >= 3 && (forall|k: int| 0 <= k < trim(t).len() ==> trim(t)[k] == c) ==> is_hr(t),
        line.len() >= 3 && (forall|k: int| 0 <= k < line.len() ==> line[k] == c)
            ==> render_plain(line, color) == grey_spec("────────────────────"@, color),
{
    if line.len() >= 3 && (forall|k: int| 0 <= k < line.len() ==> line[k] == c) {
        assert(!crate::text::is_ws(line.last()));
        assert(trim_end(line) == line);
        assert(!crate::text::is_ws(line[0]));
        assert(crate::text::trim_start(line) == line);
        assert(trim(line) == line);
        assert(is_hr(line));
    }
}

/// Plain paragraphs without markers render unchanged when color is off.
pub proof fn law_plain_line_unchanged(line: Seq<char>)
    requires
        forall|k: int| 0 <= k < line.len() ==> line[k] != '`' && line[k] != '*' && line[k] != '_',
    ensures
        inline(line, false) == line,
{
    lemma_inline_plain(line, 0);
    assert(line.skip(0) =~= line);
}

proof fn lemma_inline_plain(line: Seq<char>, i: int)
    requires
        0 <= i <= line.len(),
        forall|k: int| 0 <= k < line.len() ==> line[k] != '`' && line[k] != '*' && line[k] != '_',
    ensures
        inline_from(line, i, false) == line.skip(i),
    decreases line.len() - i,
{
    if i < line.len() {
        lemma_inline_plain(line, i + 1);
        assert(seq![line[i]] + line.skip(i + 1) =~= line.skip(i));
    } else {
        assert(line.skip(i) =~= Seq::<char>::empty());
    }
}

} // verus!
