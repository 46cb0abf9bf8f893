//! Skills: `SKILL.md` files with an optional YAML-like frontmatter (name,
//! description, triggers, tools, enabled) above a Markdown body. This module
//! parses them exactly as the loader reads them.
use vstd::prelude::*;
use crate::text::{
    chars_eq_str, chars_of, extend_chars, find_sub, find_sub_exec, is_whitespace, is_ws, join,
    join_parts, slice_chars, squeeze_whitespace, squeeze_ws, string_of, to_lowercase, trim,
    trim_chars, trim_start, trim_start_index, truncate_dots, truncate_with_dots,
    unicode_lowercase, views,
};
use crate::markdown::{lines, split_lines};

verus! {

broadcast use vstd::string::group_string_axioms;

/// Which list a block item (`- value`) belongs to.
#[derive(Clone, Copy, PartialEq, Eq, Structural)]
pub enum ListTarget {
    NoList,
    Triggers,
    Tools,
}

/// The frontmatter fields as read so far.
pub struct Frontmatter {
    pub name: String,
    pub description: String,
    pub triggers: Vec<String>,
    pub tools: Vec<String>,
    pub enabled: bool,
}

/// A parsed `SKILL.md`.
#[derive(Debug)]
pub struct ParsedSkill {
    pub name: String,
    pub description: String,
    pub triggers: Vec<String>,
    pub tools: Vec<String>,
    pub enabled: bool,
    pub body: String,
}

/// The mathematical form of the frontmatter reader's state.
#[verifier::ext_equal]
pub struct FmView {
    pub name: Seq<char>,
    pub description: Seq<char>,
    pub triggers: Seq<Seq<char>>,
    pub tools: Seq<Seq<char>>,
    pub enabled: bool,
    pub target: ListTarget,
}

pub open spec fn strings_view(v: Seq<String>) -> Seq<Seq<char>> {
    v.map_values(|s: String| s@)
}

pub open spec fn fm_view(fm: Frontmatter, target: ListTarget) -> FmView {
    FmView {
        name: fm.name@,
        description: fm.description@,
        triggers: strings_view(fm.triggers@),
        tools: strings_view(fm.tools@),
        enabled: fm.enabled,
        target,
    }
}

// ---------------------------------------------------------------------------
// Small pieces
// ---------------------------------------------------------------------------

/// A value without one pair of matching surrounding quotes.
pub open spec fn unquote_spec(value: Seq<char>) -> Seq<char> {
    let v = trim(value);
    if v.len() >= 2 && ((v[0] == '"' && v.last() == '"') || (v[0] == '\'' && v.last() == '\'')) {
        v.subrange(1, v.len() - 1)
    } else {
        v
    }
}

pub fn unquote(value: &[char]) -> (out: Vec<char>)
    ensures
        out@ == unquote_spec(value@),
{
    let v = trim_chars(value);
    let n = v.len();
    if n >= 2 && ((v[0] == '"' && v[n - 1] == '"') || (v[0] == '\'' && v[n - 1] == '\'')) {
        slice_chars(v.as_slice(), 1, n - 1)
    } else {
        v
    }
}

/// `true`, `yes`, `on`, `1` and `false`, `no`, `off`, `0` (any case).
pub open spec fn parse_bool_spec(value: Seq<char>) -> Option<bool> {
    let l = unicode_lowercase(trim(value));
    if l == "true"@ || l == "yes"@ || l == "on"@ || l == "1"@ {
        Some(true)
    } else if l == "false"@ || l == "no"@ || l == "off"@ || l == "0"@ {
        Some(false)
    } else {
        None
    }
}

pub fn parse_bool(value: &[char]) -> (r: Option<bool>)
    ensures
        r == parse_bool_spec(value@),
{
    let t = trim_chars(value);
    let ts = string_of(t.as_slice());
    let lower = to_lowercase(ts.as_str());
    let l = chars_of(lower.as_str());
    let s = l.as_slice();
    if chars_eq_str(s, "true") || chars_eq_str(s, "yes") || chars_eq_str(s, "on") || chars_eq_str(s, "1") {
        Some(true)
    } else if chars_eq_str(s, "false") || chars_eq_str(s, "no") || chars_eq_str(s, "off")
        || chars_eq_str(s, "0") {
        Some(false)
    } else {
        None
    }
}

/// The value of a block list item (`- value`); none when the line is not one
/// (`--foo` is not).
pub open spec fn list_item_spec(trimmed: Seq<char>) -> Option<Seq<char>> {
    if trimmed.len() == 0 || trimmed[0] != '-' {
        None
    } else {
        let rest = trimmed.skip(1);
        if rest.len() == 0 {
            Some(Seq::empty())
        } else if is_ws(rest[0]) {
            Some(trim(rest))
        } else {
            None
        }
    }
}

pub fn list_item(trimmed: &[char]) -> (r: Option<Vec<char>>)
    ensures
        match r {
            Some(v) => list_item_spec(trimmed@) == Some(v@),
            None => list_item_spec(trimmed@) is None,
        },
{
    if trimmed.len() == 0 || trimmed[0] != '-' {
        return None;
    }
    let rest = slice_chars(trimmed, 1, trimmed.len());
    assert(rest@ =~= trimmed@.skip(1));
    if rest.len() == 0 {
        return Some(Vec::new());
    }
    if is_whitespace(rest[0]) {
        Some(trim_chars(rest.as_slice()))
    } else {
        None
    }
}

/// Split at commas outside single or double quotes, scanning from `i` with
/// the current part starting at `start` and `q` the open quote, if any.
pub open spec fn split_from(t: Seq<char>, i: int, start: int, q: Option<char>) -> Seq<Seq<char>>
    decreases t.len() - i,
{
    if i >= t.len() {
        seq![t.subrange(start, t.len() as int)]
    } else {
        let c = t[i];
        match q {
            Some(qc) => if c == qc {
                split_from(t, i + 1, start, None)
            } else {
                split_from(t, i + 1, start, q)
            },
            None => if c == '"' || c == '\'' {
                split_from(t, i + 1, start, Some(c))
            } else if c == ',' {
                seq![t.subrange(start, i)] + split_from(t, i + 1, i + 1, None)
            } else {
                split_from(t, i + 1, start, None)
            },
        }
    }
}

pub open spec fn split_commas(t: Seq<char>) -> Seq<Seq<char>> {
    split_from(t, 0, 0, None)
}

/// Split on commas that are not inside quotes, so `"a, b"` stays whole.
pub fn split_top_level_commas(text: &[char]) -> (parts: Vec<Vec<char>>)
    ensures
        views(parts@) == split_commas(text@),
{
    let mut parts: Vec<Vec<char>> = Vec::new();
    let mut start: usize = 0;
    let mut quote: Option<char> = None;
    let mut i: usize = 0;
    while i < text.len()
        invariant
            start <= i <= text@.len(),
            views(parts@) + split_from(text@, i as int, start as int, quote) == split_commas(text@),
        decreases text@.len() - i,
    {
        let c = text[i];
        match quote {
            Some(q) => {
                if c == q {
                    quote = None;
                }
            },
            None => {
                if c == '"' || c == '\'' {
                    quote = Some(c);
                } else if c == ',' {
                    let part = slice_chars(text, start, i);
                    let ghost before = views(parts@);
                    parts.push(part);
                    assert(views(parts@) =~= before + seq![part@]);
                    assert(views(parts@) + split_from(text@, i + 1, i + 1, None) =~= before
                        + split_from(text@, i as int, start as int, None));
                    start = i + 1;
                }
            },
        }
        i += 1;
    }
    let last = slice_chars(text, start, text.len());
    let ghost before = views(parts@);
    parts.push(last);
    assert(views(parts@) =~= before + seq![last@]);
    parts
}

/// Items of an inline list (`[a, "b", c]`): brackets stripped one at a time,
/// split at top-level commas, each unquoted, empty ones dropped.
pub open spec fn inline_inner(value: Seq<char>) -> Seq<char> {
    let a = trim(value);
    let b = if a.len() > 0 && a[0] == '[' { a.skip(1) } else { a };
    if b.len() > 0 && b.last() == ']' { b.drop_last() } else { b }
}

pub open spec fn nonempty_unquoted(parts: Seq<Seq<char>>) -> Seq<Seq<char>>
    decreases parts.len(),
{
    if parts.len() == 0 {
        Seq::empty()
    } else {
        let item = unquote_spec(trim(parts.last()));
        nonempty_unquoted(parts.drop_last()) + if item.len() > 0 { seq![item] } else { Seq::empty() }
    }
}

pub open spec fn inline_items(value: Seq<char>) -> Seq<Seq<char>> {
    nonempty_unquoted(split_commas(inline_inner(value)))
}

/// Append the items of an inline list to `out`.
pub fn parse_inline_list(value: &[char], out: &mut Vec<String>)
    ensures
        strings_view(final(out)@) == strings_view(old(out)@) + inline_items(value@),
{
    let a = trim_chars(value);
    let b = if a.len() > 0 && a[0] == '[' {
        let r = slice_chars(a.as_slice(), 1, a.len());
        assert(r@ =~= a@.skip(1));
        r
    } else {
        a
    };
    let n = b.len();
    let inner = if n > 0 && b[n - 1] == ']' {
        let r = slice_chars(b.as_slice(), 0, n - 1);
        assert(r@ =~= b@.drop_last());
        r
    } else {
        b
    };
    let parts = split_top_level_commas(inner.as_slice());
    let ghost ps = views(parts@);
    let ghost base = strings_view(out@);
    let mut i: usize = 0;
    while i < parts.len()
        invariant
            i <= parts@.len(),
            ps == views(parts@),
            strings_view(out@) == base + nonempty_unquoted(ps.take(i as int)),
        decreases parts@.len() - i,
    {
        assert(ps.take(i + 1).drop_last() =~= ps.take(i as int));
        assert(ps[i as int] == parts@[i as int]@);
        let t = trim_chars(parts[i].as_slice());
        let item = unquote(t.as_slice());
        let ghost before = strings_view(out@);
        if item.len() > 0 {
            out.push(string_of(item.as_slice()));
            assert(strings_view(out@) =~= before + seq![item@]);
        } else {
            assert(strings_view(out@) =~= before + Seq::<Seq<char>>::empty());
        }
        i += 1;
    }
    assert(ps.take(i as int) =~= ps);
}

// ---------------------------------------------------------------------------
// Frontmatter
// ---------------------------------------------------------------------------

pub open spec fn fm_start() -> FmView {
    FmView {
        name: Seq::empty(),
        description: Seq::empty(),
        triggers: Seq::empty(),
        tools: Seq::empty(),
        enabled: true,
        target: ListTarget::NoList,
    }
}

/// What one frontmatter line does to the reader's state.
pub open spec fn fm_step(st: FmView, raw: Seq<char>) -> FmView {
    if trim(raw).len() == 0 {
        st
    } else {
        match list_item_spec(trim_start(raw)) {
            Some(item) => {
                let value = unquote_spec(item);
                if value.len() == 0 {
                    st
                } else {
                    match st.target {
                        ListTarget::Triggers => FmView { triggers: st.triggers.push(value), ..st },
                        ListTarget::Tools => FmView { tools: st.tools.push(value), ..st },
                        ListTarget::NoList => st,
                    }
                }
            },
            None => {
                let k = find_sub(raw, seq![':'], 0);
                if k < 0 {
                    st
                } else {
                    let key = unicode_lowercase(trim(raw.take(k)));
                    let value = trim(raw.skip(k + 1));
                    if key == "name"@ {
                        FmView { name: unquote_spec(value), target: ListTarget::NoList, ..st }
                    } else if key == "description"@ || key == "desc"@ {
                        FmView { description: unquote_spec(value), target: ListTarget::NoList, ..st }
                    } else if key == "enabled"@ {
                        FmView {
                            enabled: match parse_bool_spec(value) {
                                Some(b) => b,
                                None => st.enabled,
                            },
                            target: ListTarget::NoList,
                            ..st
                        }
                    } else if key == "triggers"@ || key == "trigger"@ || key == "keywords"@ {
                        if value.len() == 0 {
                            FmView { target: ListTarget::Triggers, ..st }
                        } else {
                            FmView { triggers: st.triggers + inline_items(value), target: ListTarget::NoList, ..st }
                        }
                    } else if key == "tools"@ || key == "tool"@ {
                        if value.len() == 0 {
                            FmView { target: ListTarget::Tools, ..st }
                        } else {
                            FmView { tools: st.tools + inline_items(value), target: ListTarget::NoList, ..st }
                        }
                    } else {
                        FmView { target: ListTarget::NoList, ..st }
                    }
                }
            },
        }
    }
}

pub open spec fn fm_fold(ls: Seq<Seq<char>>) -> FmView
    decreases ls.len(),
{
    if ls.len() == 0 { fm_start() } else { fm_step(fm_fold(ls.drop_last()), ls.last()) }
}

fn key_is(k: &[char], a: &str, b: &str, c: &str) -> (r: bool)
    ensures
        r == (k@ == a@ || k@ == b@ || k@ == c@),
{
    chars_eq_str(k, a) || chars_eq_str(k, b) || chars_eq_str(k, c)
}

fn fm_line(fm: &mut Frontmatter, target: &mut ListTarget, raw: &[char])
    ensures
        fm_view(*final(fm), *final(target)) == fm_step(fm_view(*old(fm), *old(target)), raw@),
{
    let ghost st = fm_view(*fm, *target);
    let t = trim_chars(raw);
    if t.len() == 0 {
        return;
    }
    let a = trim_start_index(raw);
    let ts = slice_chars(raw, a, raw.len());
    assert(ts@ =~= trim_start(raw@));
    match list_item(ts.as_slice()) {
        Some(item) => {
            let value = unquote(item.as_slice());
            if value.len() == 0 {
                return;
            }
            match *target {
                ListTarget::Triggers => {
                    fm.triggers.push(string_of(value.as_slice()));
                    assert(strings_view(fm.triggers@) =~= st.triggers.push(value@));
                },
                ListTarget::Tools => {
                    fm.tools.push(string_of(value.as_slice()));
                    assert(strings_view(fm.tools@) =~= st.tools.push(value@));
                },
                ListTarget::NoList => {},
            }
            return;
        },
        None => {},
    }
    let colon: Vec<char> = vec![':'];
    assert(colon@ =~= seq![':']);
    let n = raw.len();
    let k = match find_sub_exec(raw, colon.as_slice(), 0) {
        Some(k) => k,
        None => return,
    };
    let key_raw = slice_chars(raw, 0, k);
    let key_t = trim_chars(key_raw.as_slice());
    let key_s = string_of(key_t.as_slice());
    let key_l = to_lowercase(key_s.as_str());
    let key = chars_of(key_l.as_str());
    let value_raw = slice_chars(raw, k + 1, n);
    assert(value_raw@ =~= raw@.skip(k + 1));
    let value = trim_chars(value_raw.as_slice());
    let kk = key.as_slice();
    if chars_eq_str(kk, "name") {
        let v = unquote(value.as_slice());
        fm.name = string_of(v.as_slice());
        *target = ListTarget::NoList;
    } else if key_is(kk, "description", "desc", "desc") {
        let v = unquote(value.as_slice());
        fm.description = string_of(v.as_slice());
        *target = ListTarget::NoList;
    } else if chars_eq_str(kk, "enabled") {
        match parse_bool(value.as_slice()) {
            Some(b) => {
                fm.enabled = b;
            },
            None => {},
        }
        *target = ListTarget::NoList;
    } else if key_is(kk, "triggers", "trigger", "keywords") {
        if value.len() == 0 {
            *target = ListTarget::Triggers;
        } else {
            parse_inline_list(value.as_slice(), &mut fm.triggers);
            *target = ListTarget::NoList;
        }
    } else if key_is(kk, "tools", "tool", "tool") {
        if value.len() == 0 {
            *target = ListTarget::Tools;
        } else {
            parse_inline_list(value.as_slice(), &mut fm.tools);
            *target = ListTarget::NoList;
        }
    } else {
        *target = ListTarget::NoList;
    }
}

/// Read the frontmatter block (the text between the `---` fences).
pub fn parse_frontmatter(front: &str) -> (fm: Frontmatter)
    ensures
        ({
            let v = fm_fold(lines(front@));
            &&& fm.name@ == v.name
            &&& fm.description@ == v.description
            &&& strings_view(fm.triggers@) == v.triggers
            &&& strings_view(fm.tools@) == v.tools
            &&& fm.enabled == v.enabled
        }),
{
    let mut fm = Frontmatter {
        name: String::new(),
        description: String::new(),
        triggers: Vec::new(),
        tools: Vec::new(),
        enabled: true,
    };
    let mut target = ListTarget::NoList;
    let c = chars_of(front);
    let ls = split_lines(c.as_slice());
    let ghost all = ls@.map_values(|v: Vec<char>| v@);
    assert(fm_view(fm, target) =~= fm_start());
    let mut i: usize = 0;
    while i < ls.len()
        invariant
            i <= ls@.len(),
            all == ls@.map_values(|v: Vec<char>| v@),
            fm_view(fm, target) == fm_fold(all.take(i as int)),
        decreases ls@.len() - i,
    {
        assert(all.take(i + 1).drop_last() =~= all.take(i as int));
        assert(all.take(i + 1).last() == ls@[i as int]@);
        fm_line(&mut fm, &mut target, ls[i].as_slice());
        i += 1;
    }
    assert(all.take(i as int) =~= all);
    fm
}

// ---------------------------------------------------------------------------
// Whole files
// ---------------------------------------------------------------------------

/// Whitespace squeezed, cut to `max` characters with `...`.
pub open spec fn one_line_spec(text: Seq<char>, max: nat) -> Seq<char> {
    truncate_dots(squeeze_ws(text), max)
}

pub fn one_line(text: &[char], max: usize) -> (out: Vec<char>)
    ensures
        out@ == one_line_spec(text@, max as nat),
{
    let c = squeeze_whitespace(text);
    truncate_with_dots(c.as_slice(), max)
}

/// `s` without leading `#` characters.
pub open spec fn strip_hashes(s: Seq<char>) -> Seq<char>
    decreases s.len(),
{
    if s.len() > 0 && s[0] == '#' { strip_hashes(s.drop_first()) } else { s }
}

/// The description a body implies: its first non-blank line on one line, or
/// for a heading its non-empty text (an empty heading is skipped).
pub open spec fn infer_from(ls: Seq<Seq<char>>) -> Seq<char>
    decreases ls.len(),
{
    if ls.len() == 0 {
        Seq::empty()
    } else {
        let t = trim(ls[0]);
        if t.len() == 0 {
            infer_from(ls.drop_first())
        } else if t[0] == '#' {
            let h = trim(strip_hashes(t.skip(1)));
            if h.len() > 0 { one_line_spec(h, 200) } else { infer_from(ls.drop_first()) }
        } else {
            one_line_spec(t, 200)
        }
    }
}

fn strip_hashes_exec(s: &[char]) -> (out: Vec<char>)
    ensures
        out@ == strip_hashes(s@),
{
    let mut k: usize = 0;
    assert(s@.skip(0) =~= s@);
    while k < s.len() && s[k] == '#'
        invariant
            k <= s@.len(),
            strip_hashes(s@) == strip_hashes(s@.skip(k as int)),
        decreases s@.len() - k,
    {
        assert(s@.skip(k as int).drop_first() =~= s@.skip(k + 1));
        k += 1;
    }
    let out = slice_chars(s, k, s.len());
    assert(out@ =~= s@.skip(k as int));
    out
}

/// Infer a description from a skill body.
pub fn infer_description(body: &str) -> (out: String)
    ensures
        out@ == infer_from(lines(body@)),
{
    let c = chars_of(body);
    let ls = split_lines(c.as_slice());
    let ghost all = ls@.map_values(|v: Vec<char>| v@);
    let mut i: usize = 0;
    assert(all.skip(0) =~= all);
    while i < ls.len()
        invariant
            i <= ls@.len(),
            all == ls@.map_values(|v: Vec<char>| v@),
            all == lines(body@),
            infer_from(all) == infer_from(all.skip(i as int)),
        decreases ls@.len() - i,
    {
        assert(all.skip(i as int)[0] == ls@[i as int]@);
        assert(all.skip(i as int).drop_first() =~= all.skip(i + 1));
        let t = trim_chars(ls[i].as_slice());
        if t.len() > 0 {
            if t[0] == '#' {
                let rest = slice_chars(t.as_slice(), 1, t.len());
                assert(rest@ =~= t@.skip(1));
                let h0 = strip_hashes_exec(rest.as_slice());
                let h = trim_chars(h0.as_slice());
                if h.len() > 0 {
                    let o = one_line(h.as_slice(), 200);
                    return string_of(o.as_slice());
                }
            } else {
                let o = one_line(t.as_slice(), 200);
                return string_of(o.as_slice());
            }
        }
        i += 1;
    }
    assert(all.skip(i as int) =~= Seq::<Seq<char>>::empty());
    String::new()
}

/// Whether `x` equals, once lowercased, some item of `items`.
pub open spec fn seen_lowercase(items: Seq<Seq<char>>, x: Seq<char>) -> bool {
    exists|j: int| 0 <= j < items.len() && unicode_lowercase(#[trigger] items[j]) == unicode_lowercase(x)
}

/// The items with later case-insensitive repeats dropped.
pub open spec fn dedup_lower(items: Seq<Seq<char>>) -> Seq<Seq<char>>
    decreases items.len(),
{
    if items.len() == 0 {
        Seq::empty()
    } else if seen_lowercase(items.drop_last(), items.last()) {
        dedup_lower(items.drop_last())
    } else {
        dedup_lower(items.drop_last()).push(items.last())
    }
}

/// Drop later case-insensitive repeats, keeping first occurrences in order.
pub fn dedup_lowercase(items: Vec<String>) -> (out: Vec<String>)
    ensures
        strings_view(out@) == dedup_lower(strings_view(items@)),
{
    let ghost all = strings_view(items@);
    let mut lowered: Vec<Vec<char>> = Vec::new();
    let mut out: Vec<String> = Vec::new();
    let mut i: usize = 0;
    while i < items.len()
        invariant
            i <= items@.len(),
            all == strings_view(items@),
            lowered@.len() == i,
            forall|j: int| 0 <= j < i ==> (#[trigger] lowered@[j])@ == unicode_lowercase(all[j]),
            strings_view(out@) == dedup_lower(all.take(i as int)),
        decreases items@.len() - i,
    {
        let l = to_lowercase(items[i].as_str());
        let lc = chars_of(l.as_str());
        let mut seen = false;
        let mut j: usize = 0;
        while j < i
            invariant
                j <= i,
                i < items@.len(),
                lowered@.len() == i,
                lc@ == unicode_lowercase(all[i as int]),
                all == strings_view(items@),
                forall|m: int| 0 <= m < i ==> (#[trigger] lowered@[m])@ == unicode_lowercase(all[m]),
                seen == exists|m: int| 0 <= m < j && unicode_lowercase(#[trigger] all[m]) == unicode_lowercase(all[i as int]),
            decreases i - j,
        {
            if crate::text::chars_eq(lowered[j].as_slice(), lc.as_slice()) {
                seen = true;
            }
            j += 1;
        }
        let ghost pre = all.take(i as int);
        assert(all.take(i + 1).drop_last() =~= pre);
        assert(all.take(i + 1).last() == all[i as int]);
        assert(seen == seen_lowercase(pre, all[i as int])) by {
            if seen {
                let m = choose|m: int| 0 <= m < i && unicode_lowercase(#[trigger] all[m]) == unicode_lowercase(all[i as int]);
                assert(pre[m] == all[m]);
            }
            if seen_lowercase(pre, all[i as int]) {
                let m = choose|m: int| 0 <= m < pre.len() && unicode_lowercase(#[trigger] pre[m]) == unicode_lowercase(all[i as int]);
                assert(pre[m] == all[m]);
            }
        }
        if !seen {
            let ghost before = strings_view(out@);
            out.push(items[i].clone());
            assert(strings_view(out@) =~= before.push(all[i as int]));
        }
        lowered.push(lc);
        i += 1;
    }
    assert(all.take(i as int) =~= all);
    out
}

/// The frontmatter and body of a file: when the first line is `---`, the
/// lines up to the next `---` line and those after it; otherwise no
/// frontmatter and the whole text. An unclosed fence is an error.
pub open spec fn closing_fence(ls: Seq<Seq<char>>, j: int) -> int
    decreases ls.len() - j,
{
    if j < 1 || j >= ls.len() {
        -1
    } else if trim(ls[j]) == "---"@ {
        j
    } else {
        closing_fence(ls, j + 1)
    }
}

pub open spec fn strip_bom(c: Seq<char>) -> Seq<char> {
    if c.len() > 0 && c[0] == '\u{feff}' { c.skip(1) } else { c }
}

pub open spec fn split_front(content: Seq<char>) -> Result<(Seq<char>, Seq<char>), Seq<char>> {
    let c = strip_bom(content);
    let ls = lines(c);
    if ls.len() > 0 && trim(ls[0]) == "---"@ {
        let end = closing_fence(ls, 1);
        if end < 0 {
            Err("frontmatter opened with '---' but is missing its closing '---'"@)
        } else {
            Ok((join(ls.subrange(1, end), seq!['\n']), join(ls.skip(end + 1), seq!['\n'])))
        }
    } else {
        Ok((Seq::empty(), c))
    }
}

/// A parsed skill: name (frontmatter, else the folder), description
/// (frontmatter, else inferred from the body), triggers without
/// case-insensitive repeats, tools, enabled flag, trimmed body.
pub open spec fn parse_skill_spec(content: Seq<char>, folder: Seq<char>) -> Result<(Seq<char>, Seq<char>, Seq<Seq<char>>, Seq<Seq<char>>, bool, Seq<char>), Seq<char>> {
    match split_front(content) {
        Err(e) => Err(e),
        Ok((front, body)) => {
            let fm = fm_fold(lines(front));
            Ok((
                if trim(fm.name).len() == 0 { trim(folder) } else { trim(fm.name) },
                if trim(fm.description).len() == 0 { infer_from(lines(body)) } else { trim(fm.description) },
                dedup_lower(fm.triggers),
                fm.tools,
                fm.enabled,
                trim(body),
            ))
        },
    }
}

pub open spec fn parsed_view(p: ParsedSkill) -> (Seq<char>, Seq<char>, Seq<Seq<char>>, Seq<Seq<char>>, bool, Seq<char>) {
    (p.name@, p.description@, strings_view(p.triggers@), strings_view(p.tools@), p.enabled, p.body@)
}

fn lines_joined(ls: &Vec<Vec<char>>, from: usize, to: usize) -> (out: Vec<char>)
    requires
        from <= to <= ls@.len(),
    ensures
        out@ == join(views(ls@).subrange(from as int, to as int), seq!['\n']),
{
    let mut parts: Vec<Vec<char>> = Vec::new();
    let mut i = from;
    while i < to
        invariant
            from <= i <= to,
            to <= ls@.len(),
            views(parts@) == views(ls@).subrange(from as int, i as int),
        decreases to - i,
    {
        let line = slice_chars(ls[i].as_slice(), 0, ls[i].len());
        assert(line@ =~= ls@[i as int]@);
        let ghost before = views(parts@);
        parts.push(line);
        assert(views(parts@) =~= before.push(line@));
        assert(views(parts@) =~= views(ls@).subrange(from as int, i + 1));
        i += 1;
    }
    let j = join_parts(&parts, "\n");
    proof {
        reveal_strlit("\n");
    }
    assert("\n"@ =~= seq!['\n']);
    j
}

/// Parse a `SKILL.md` (`folder` names the skill when the frontmatter does
/// not).
pub fn parse_skill(content: &str, folder: &str) -> (r: Result<ParsedSkill, String>)
    ensures
        match r {
            Ok(p) => parse_skill_spec(content@, folder@) == Ok::<_, Seq<char>>(parsed_view(p)),
            Err(e) => parse_skill_spec(content@, folder@) == Err::<(Seq<char>, Seq<char>, Seq<Seq<char>>, Seq<Seq<char>>, bool, Seq<char>), Seq<char>>(e@),
        },
{
    let raw = chars_of(content);
    let c = if raw.len() > 0 && raw[0] == '\u{feff}' {
        let r = slice_chars(raw.as_slice(), 1, raw.len());
        assert(r@ =~= raw@.skip(1));
        r
    } else {
        raw
    };
    let ls = split_lines(c.as_slice());
    let ghost all = ls@.map_values(|v: Vec<char>| v@);
    assert(all =~= views(ls@));
    let mut front: Vec<char> = Vec::new();
    let mut body: Vec<char> = slice_chars(c.as_slice(), 0, c.len());
    assert(body@ =~= c@);
    let opened = if ls.len() > 0 {
        let f = trim_chars(ls[0].as_slice());
        crate::text::chars_eq_str(f.as_slice(), "---")
    } else {
        false
    };
    if opened {
        let mut j: usize = 1;
        let mut found = false;
        let mut end: usize = 0;
        while j < ls.len()
            invariant
                1 <= j <= ls@.len(),
                all == views(ls@),
                found ==> closing_fence(all, 1) == end && 1 <= end < ls@.len() && j == ls@.len(),
                !found ==> closing_fence(all, 1) == closing_fence(all, j as int),
            decreases ls@.len() - j,
        {
            let t = trim_chars(ls[j].as_slice());
            assert(all[j as int] == ls@[j as int]@);
            if crate::text::chars_eq_str(t.as_slice(), "---") {
                assert(trim(all[j as int]) == "---"@);
                assert(closing_fence(all, j as int) == j as int);
                found = true;
                end = j;
                j = ls.len();
            } else {
                j += 1;
            }
        }
        if !found {
            assert(closing_fence(all, j as int) == -1);
            return Err(String::from_str("frontmatter opened with '---' but is missing its closing '---'"));
        }
        let j = end;
        front = lines_joined(&ls, 1, j);
        body = lines_joined(&ls, j + 1, ls.len());
        assert(all.skip(j + 1) =~= all.subrange(j + 1, all.len() as int));
    }
    let front_s = string_of(front.as_slice());
    let fm = parse_frontmatter(front_s.as_str());
    let name_t = trim_chars(chars_of(fm.name.as_str()).as_slice());
    let name = if name_t.len() == 0 {
        let f = crate::text::trim_str(folder);
        string_of(f.as_slice())
    } else {
        string_of(name_t.as_slice())
    };
    let desc_t = trim_chars(chars_of(fm.description.as_str()).as_slice());
    let description = if desc_t.len() == 0 {
        let b = string_of(body.as_slice());
        infer_description(b.as_str())
    } else {
        string_of(desc_t.as_slice())
    };
    let triggers = dedup_lowercase(fm.triggers);
    let body_t = trim_chars(body.as_slice());
    Ok(ParsedSkill {
        name,
        description,
        triggers,
        tools: fm.tools,
        enabled: fm.enabled,
        body: string_of(body_t.as_slice()),
    })
}

} // verus!
