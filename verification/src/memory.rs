//! The memory store's text rules: redacting secrets, classifying remembered
//! facts, recognising the agent's own change logs, and the line diff and
//! Markdown shapes written into those logs.
use vstd::prelude::*;
use crate::text::{
    chars_eq_str, chars_of, extend_chars, extend_str, find_sub, find_sub_exec, join,
    join_parts, rfind_sub, rfind_sub_exec, slice_chars, starts_with_str, string_of, utf8_len,
    truncate_dots, replace_all,
    to_lowercase, trim, trim_chars, trim_str, unicode_lowercase, views, decimal,
    decimal_string,
};
use crate::markdown::{lines, split_lines};
use crate::observations::{
    created_paths, files_map, find_path, insert_sorted, keys_of, lemma_created_of_own_keys,
    lemma_files_map_entry, lemma_keys_in_map, sorted_keys, strings_view,
};

verus! {

broadcast use vstd::string::group_string_axioms;

// ---------------------------------------------------------------------------
// Redaction
// ---------------------------------------------------------------------------

/// What `Regex::new(pattern)` and then `replace_all(text, replacement)`
/// give: none when the pattern does not compile.
pub uninterp spec fn regex_replaced(pattern: Seq<char>, text: Seq<char>, replacement: Seq<char>) -> Option<Seq<char>>;

/// `regex::Regex::new(pattern)` followed by `Regex::replace_all(text,
/// replacement)`; none when the pattern is refused. The contract only names
/// the result: which spans match is the regex crate's to decide.
#[verifier::external_body]
pub(crate) fn regex_replace_all(pattern: &str, text: &str, replacement: &str) -> (r: Option<String>)
    ensures
        match r {
            Some(s) => regex_replaced(pattern@, text@, replacement@) == Some(s@),
            None => regex_replaced(pattern@, text@, replacement@) is None,
        },
{
    regex::Regex::new(pattern).ok().map(|re| re.replace_all(text, replacement).into_owned())
}

/// The secret patterns, applied in order: API keys of the `sk-…` form,
/// `key = value` credentials, PEM private keys, and card-like digit runs.
pub open spec fn secret_patterns() -> Seq<&'static str> {
    seq![
        "sk-[A-Za-z0-9_-]{10,}",
        "(?i)(api[_ -]?key|password|passwd|token|secret)\\s*[:=]\\s*\\S+",
        "(?i)-----BEGIN [A-Z ]*PRIVATE KEY-----[\\s\\S]*?-----END [A-Z ]*PRIVATE KEY-----",
        "\\b(?:\\d[ -]*?){13,19}\\b",
    ]
}

/// One pattern's replacement, or the text unchanged when it does not compile.
pub open spec fn scrub_step(text: Seq<char>, pattern: Seq<char>) -> Seq<char> {
    match regex_replaced(pattern, text, "[REDACTED_SECRET]"@) {
        Some(t) => t,
        None => text,
    }
}

pub open spec fn scrub_with(text: Seq<char>, pats: Seq<&'static str>) -> Seq<char>
    decreases pats.len(),
{
    if pats.len() == 0 { text } else { scrub_step(scrub_with(text, pats.drop_last()), pats.last()@) }
}

pub open spec fn scrub_spec(text: Seq<char>) -> Seq<char> {
    scrub_with(text, secret_patterns())
}

/// Replace every secret-looking span with `[REDACTED_SECRET]`.
pub fn redact_text(text: &str) -> (out: String)
    ensures
        out@ == scrub_spec(text@),
{
    let pats: [&str; 4] = [
        "sk-[A-Za-z0-9_-]{10,}",
        "(?i)(api[_ -]?key|password|passwd|token|secret)\\s*[:=]\\s*\\S+",
        "(?i)-----BEGIN [A-Z ]*PRIVATE KEY-----[\\s\\S]*?-----END [A-Z ]*PRIVATE KEY-----",
        "\\b(?:\\d[ -]*?){13,19}\\b",
    ];
    assert(pats@ == secret_patterns());
    let mut out = String::from_str(text);
    let mut i: usize = 0;
    while i < 4
        invariant
            i <= 4,
            pats@ == secret_patterns(),
            out@ == scrub_with(text@, secret_patterns().take(i as int)),
        decreases 4 - i,
    {
        assert(secret_patterns().take(i + 1).drop_last() =~= secret_patterns().take(i as int));
        match regex_replace_all(pats[i], out.as_str(), "[REDACTED_SECRET]") {
            Some(s) => {
                out = s;
            },
            None => {},
        }
        i += 1;
    }
    assert(secret_patterns().take(4) =~= secret_patterns());
    out
}

pub open spec fn contains_seq(hay: Seq<char>, needle: Seq<char>) -> bool {
    find_sub(hay, needle, 0) >= 0
}

fn has(hay: &[char], needle: &str) -> (b: bool)
    ensures
        b == contains_seq(hay@, needle@),
{
    let n = chars_of(needle);
    find_sub_exec(hay, n.as_slice(), 0).is_some()
}

/// Text that redaction would change, or that speaks of a private key or a
/// password.
pub open spec fn restricted_spec(text: Seq<char>) -> bool {
    scrub_spec(text) != text || contains_seq(unicode_lowercase(text), "private key"@)
        || contains_seq(unicode_lowercase(text), "password is"@)
}

pub fn contains_restricted(text: &str) -> (b: bool)
    ensures
        b == restricted_spec(text@),
{
    let s = redact_text(text);
    let sc = chars_of(s.as_str());
    let tc = chars_of(text);
    if !crate::text::chars_eq(sc.as_slice(), tc.as_slice()) {
        return true;
    }
    let l = to_lowercase(text);
    let lc = chars_of(l.as_str());
    has(lc.as_slice(), "private key") || has(lc.as_slice(), "password is")
}

/// Worth remembering: more than eight bytes once trimmed, and not a bare
/// acknowledgement.
pub open spec fn durable_spec(text: Seq<char>) -> bool {
    let t = trim(text);
    let l = unicode_lowercase(t);
    crate::text::utf8_len(t) > 8 && !(l == "thanks"@ || l == "thank you"@ || l == "ok"@ || l == "okay"@
        || l == "yes"@ || l == "no"@)
}

pub fn durable(text: &str) -> (b: bool)
    ensures
        b == durable_spec(text@),
{
    let t = trim_str(text);
    if !crate::text::utf8_len_at_least(t.as_slice(), 9) {
        return false;
    }
    let ts = string_of(t.as_slice());
    let l = to_lowercase(ts.as_str());
    let lc = chars_of(l.as_str());
    let s = lc.as_slice();
    !(chars_eq_str(s, "thanks") || chars_eq_str(s, "thank you") || chars_eq_str(s, "ok")
        || chars_eq_str(s, "okay") || chars_eq_str(s, "yes") || chars_eq_str(s, "no"))
}

/// The category a fact falls into, by the first family of words it uses.
pub open spec fn category_spec(text: Seq<char>) -> Seq<char> {
    let t = unicode_lowercase(text);
    if contains_seq(t, "prefer"@) || contains_seq(t, "likes"@) || contains_seq(t, "wants"@) || contains_seq(t, "style"@) {
        "preferences"@
    } else if contains_seq(t, "project"@) || contains_seq(t, "building"@) || contains_seq(t, "working on"@) {
        "projects"@
    } else if contains_seq(t, "friend"@) || contains_seq(t, "partner"@) || contains_seq(t, "coworker"@)
        || contains_seq(t, "manager"@) {
        "people"@
    } else if contains_seq(t, "name is"@) || contains_seq(t, "i am"@) || contains_seq(t, "i'm"@)
        || contains_seq(t, "live in"@) {
        "identity"@
    } else if contains_seq(t, "today"@) || contains_seq(t, "yesterday"@) || contains_seq(t, "recently"@) {
        "recent_notable_events"@
    } else {
        "facts"@
    }
}

pub fn categorize(text: &str) -> (c: &'static str)
    ensures
        c@ == category_spec(text@),
{
    let l = to_lowercase(text);
    let t = chars_of(l.as_str());
    let s = t.as_slice();
    if has(s, "prefer") || has(s, "likes") || has(s, "wants") || has(s, "style") {
        "preferences"
    } else if has(s, "project") || has(s, "building") || has(s, "working on") {
        "projects"
    } else if has(s, "friend") || has(s, "partner") || has(s, "coworker") || has(s, "manager") {
        "people"
    } else if has(s, "name is") || has(s, "i am") || has(s, "i'm") || has(s, "live in") {
        "identity"
    } else if has(s, "today") || has(s, "yesterday") || has(s, "recently") {
        "recent_notable_events"
    } else {
        "facts"
    }
}

/// The memory kind recorded for a category.
pub fn kind_for_category(category: &str) -> (k: &'static str)
    ensures
        k@ == (if category@ == "preferences"@ {
            "procedural_preference"@
        } else if category@ == "people"@ {
            "relational_memory"@
        } else if category@ == "recent_notable_events"@ {
            "episodic_event"@
        } else {
            "semantic_fact"@
        }),
{
    let c = chars_of(category);
    if chars_eq_str(c.as_slice(), "preferences") {
        "procedural_preference"
    } else if chars_eq_str(c.as_slice(), "people") {
        "relational_memory"
    } else if chars_eq_str(c.as_slice(), "recent_notable_events") {
        "episodic_event"
    } else {
        "semantic_fact"
    }
}

/// How sensitive a fact is.
pub open spec fn sensitivity_spec(text: Seq<char>) -> Seq<char> {
    let t = unicode_lowercase(text);
    if restricted_spec(text) {
        "restricted"@
    } else if contains_seq(t, "health"@) || contains_seq(t, "medical"@) || contains_seq(t, "money"@)
        || contains_seq(t, "address"@) || contains_seq(t, "phone"@) {
        "sensitive"@
    } else if contains_seq(t, "my "@) || contains_seq(t, "i "@) || contains_seq(t, "user"@) {
        "personal"@
    } else {
        "public"@
    }
}

pub fn sensitivity(text: &str) -> (s: &'static str)
    ensures
        s@ == sensitivity_spec(text@),
{
    let l = to_lowercase(text);
    let t = chars_of(l.as_str());
    let s = t.as_slice();
    if contains_restricted(text) {
        "restricted"
    } else if has(s, "health") || has(s, "medical") || has(s, "money") || has(s, "address") || has(s, "phone") {
        "sensitive"
    } else if has(s, "my ") || has(s, "i ") || has(s, "user") {
        "personal"
    } else {
        "public"
    }
}

/// The heading a category is filed under.
pub fn title(category: &str) -> (t: &'static str)
    ensures
        t@ == (if category@ == "identity"@ {
            "Identity"@
        } else if category@ == "projects"@ {
            "Projects"@
        } else if category@ == "preferences"@ {
            "Preferences"@
        } else if category@ == "people"@ {
            "People"@
        } else if category@ == "recent_notable_events"@ {
            "Recent Notable Events"@
        } else {
            "Facts"@
        }),
{
    let c = chars_of(category);
    let s = c.as_slice();
    if chars_eq_str(s, "identity") {
        "Identity"
    } else if chars_eq_str(s, "projects") {
        "Projects"
    } else if chars_eq_str(s, "preferences") {
        "Preferences"
    } else if chars_eq_str(s, "people") {
        "People"
    } else if chars_eq_str(s, "recent_notable_events") {
        "Recent Notable Events"
    } else {
        "Facts"
    }
}

// ---------------------------------------------------------------------------
// Change logs
// ---------------------------------------------------------------------------

pub open spec fn all_ascii_digits(s: Seq<char>) -> bool {
    forall|i: int| 0 <= i < s.len() ==> '0' <= #[trigger] s[i] && s[i] <= '9'
}

/// `biscuit/logs.md` or `biscuit/logs<digits>.md`.
pub open spec fn log_path_spec(rel: Seq<char>) -> bool {
    if !"biscuit/logs"@.is_prefix_of(rel) {
        false
    } else {
        let suffix = rel.skip(12);
        suffix == ".md"@ || (suffix.len() >= 3 && suffix.skip(suffix.len() - 3) == ".md"@
            && all_ascii_digits(suffix.take(suffix.len() - 3)))
    }
}

/// Whether a workspace-relative path (forward slashes) is one of the
/// agent's own change logs.
pub fn is_biscuit_log_path(rel: &str) -> (b: bool)
    ensures
        b == log_path_spec(rel@),
{
    let r = chars_of(rel);
    proof {
        reveal_strlit("biscuit/logs");
        reveal_strlit(".md");
    }
    if !starts_with_str(r.as_slice(), "biscuit/logs") {
        return false;
    }
    let suffix = slice_chars(r.as_slice(), 12, r.len());
    assert(suffix@ =~= rel@.skip(12));
    if chars_eq_str(suffix.as_slice(), ".md") {
        return true;
    }
    let n = suffix.len();
    if n < 3 {
        return false;
    }
    let tail = slice_chars(suffix.as_slice(), n - 3, n);
    assert(tail@ =~= suffix@.skip(n - 3));
    if !chars_eq_str(tail.as_slice(), ".md") {
        return false;
    }
    let mut i: usize = 0;
    while i < n - 3
        invariant
            n == suffix@.len(),
            n >= 3,
            suffix@ == rel@.skip(12),
            "biscuit/logs"@.is_prefix_of(rel@),
            "biscuit/logs"@.len() == 12,
            suffix@ != ".md"@,
            i <= n - 3,
            forall|j: int| 0 <= j < i ==> '0' <= #[trigger] suffix@[j] && suffix@[j] <= '9',
        decreases n - 3 - i,
    {
        let c = suffix[i];
        if !('0' <= c && c <= '9') {
            assert(suffix@.take(n - 3)[i as int] == c);
            assert(!all_ascii_digits(suffix@.take(n - 3)));
            return false;
        }
        i += 1;
    }
    assert(all_ascii_digits(suffix@.take(n - 3)));
    true
}

/// Entries a workspace snapshot leaves out: version control, build output,
/// dependencies, the memory store, and the change logs themselves.
pub open spec fn skip_snapshot_spec(name: Seq<char>, rel: Seq<char>) -> bool {
    name == ".git"@ || name == "target"@ || name == "node_modules"@ || name == ".next"@ || name == "dist"@
        || name == "build"@ || "biscuits/"@.is_prefix_of(rel) || rel == "biscuits"@ || log_path_spec(rel)
}

/// Whether a snapshot skips the entry with file name `name` at relative path
/// `rel`.
pub fn skip_snapshot_entry(name: &str, rel: &str) -> (b: bool)
    ensures
        b == skip_snapshot_spec(name@, rel@),
{
    let n = chars_of(name);
    let s = n.as_slice();
    if chars_eq_str(s, ".git") || chars_eq_str(s, "target") || chars_eq_str(s, "node_modules")
        || chars_eq_str(s, ".next") || chars_eq_str(s, "dist") || chars_eq_str(s, "build") {
        return true;
    }
    let r = chars_of(rel);
    starts_with_str(r.as_slice(), "biscuits/") || chars_eq_str(r.as_slice(), "biscuits")
        || is_biscuit_log_path(rel)
}

/// The header of log file number `index` (the first has its own).
pub fn log_header(index: u64, first_header: &str) -> (h: String)
    ensures
        h@ == (if index == 1 { first_header@ } else { "# Agent Change Log "@ + decimal(index as nat) + "\n\n"@ }),
{
    if index == 1 {
        return String::from_str(first_header);
    }
    let mut v = chars_of("# Agent Change Log ");
    let d = decimal_string(index);
    extend_chars(&mut v, d.as_slice());
    extend_str(&mut v, "\n\n");
    string_of(v.as_slice())
}

/// The file name of log number `index`.
pub fn log_file_name(index: u64) -> (n: String)
    ensures
        n@ == (if index == 1 { "logs.md"@ } else { "logs"@ + decimal(index as nat) + ".md"@ }),
{
    if index == 1 {
        return String::from_str("logs.md");
    }
    let mut v = chars_of("logs");
    let d = decimal_string(index);
    extend_chars(&mut v, d.as_slice());
    extend_str(&mut v, ".md");
    string_of(v.as_slice())
}

/// A handoff document has its four sections in order.
pub open spec fn valid_handoff_spec(text: Seq<char>) -> bool {
    let r = find_sub(text, "## Requirements"@, 0);
    let s = find_sub(text, "## Project Summary"@, 0);
    let p = find_sub(text, "## Project Specifics"@, 0);
    let i = find_sub(text, "## Insights"@, 0);
    r >= 0 && s >= 0 && p >= 0 && i >= 0 && r < s && s < p && p < i
}

pub fn valid_handoff(text: &str) -> (b: bool)
    ensures
        b == valid_handoff_spec(text@),
{
    let t = chars_of(text);
    let a = chars_of("## Requirements");
    let b = chars_of("## Project Summary");
    let c = chars_of("## Project Specifics");
    let d = chars_of("## Insights");
    let r = match find_sub_exec(t.as_slice(), a.as_slice(), 0) {
        Some(x) => x,
        None => return false,
    };
    let s = match find_sub_exec(t.as_slice(), b.as_slice(), 0) {
        Some(x) => x,
        None => return false,
    };
    let p = match find_sub_exec(t.as_slice(), c.as_slice(), 0) {
        Some(x) => x,
        None => return false,
    };
    let i = match find_sub_exec(t.as_slice(), d.as_slice(), 0) {
        Some(x) => x,
        None => return false,
    };
    r < s && s < p && p < i
}

/// A model reply as Markdown: trimmed, and when fenced, the body between the
/// opening fence line and the last fence.
pub open spec fn markdown_from_text_spec(text: Seq<char>) -> Seq<char> {
    let t = trim(text);
    if !"```"@.is_prefix_of(t) {
        t
    } else {
        let ls = lines(t);
        let body = join(if ls.len() > 0 { ls.drop_first() } else { ls }, seq!['\n']);
        let q = rfind_sub(body, "```"@);
        if q >= 0 { trim(body.take(q)) } else { trim(body) }
    }
}

pub fn markdown_from_text(text: &str) -> (out: String)
    ensures
        out@ == markdown_from_text_spec(text@),
{
    let t = trim_str(text);
    proof {
        reveal_strlit("```");
    }
    if !starts_with_str(t.as_slice(), "```") {
        return string_of(t.as_slice());
    }
    let ls = split_lines(t.as_slice());
    let ghost all = views(ls@);
    let mut parts: Vec<Vec<char>> = Vec::new();
    let mut i: usize = 1;
    while i < ls.len()
        invariant
            1 <= i <= ls@.len() || (ls@.len() == 0 && i == 1),
            all == views(ls@),
            views(parts@) == all.subrange(1, i as int),
        decreases ls@.len() - i,
    {
        let line = slice_chars(ls[i].as_slice(), 0, ls[i].len());
        assert(line@ =~= ls@[i as int]@);
        let ghost before = views(parts@);
        parts.push(line);
        assert(views(parts@) =~= before.push(line@));
        assert(views(parts@) =~= all.subrange(1, i + 1));
        i += 1;
    }
    proof {
        if ls@.len() > 0 {
            assert(all.subrange(1, i as int) =~= all.drop_first());
        } else {
            assert(views(parts@) =~= all);
        }
        assert(all == lines(t@));
    }
    let body = join_parts(&parts, "\n");
    proof {
        reveal_strlit("\n");
        assert("\n"@ =~= seq!['\n']);
    }
    let fence = chars_of("```");
    match rfind_sub_exec(body.as_slice(), fence.as_slice()) {
        Some(q) => {
            let head = slice_chars(body.as_slice(), 0, q);
            assert(head@ =~= body@.take(q as int));
            let r = trim_chars(head.as_slice());
            string_of(r.as_slice())
        },
        None => {
            let r = trim_chars(body.as_slice());
            string_of(r.as_slice())
        },
    }
}

/// Each line of `text` prefixed, joined by newlines; nothing for no text.
pub open spec fn prefixed_lines_spec(prefix: Seq<char>, text: Seq<char>) -> Seq<char> {
    if text.len() == 0 {
        Seq::empty()
    } else {
        join(lines(text).map_values(|l: Seq<char>| prefix + l), seq!['\n'])
    }
}

pub fn prefixed_lines(prefix: &str, text: &str) -> (out: String)
    ensures
        out@ == prefixed_lines_spec(prefix@, text@),
{
    let t = chars_of(text);
    if t.len() == 0 {
        return String::new();
    }
    let ls = split_lines(t.as_slice());
    let ghost all = views(ls@);
    let mut parts: Vec<Vec<char>> = Vec::new();
    let mut i: usize = 0;
    while i < ls.len()
        invariant
            i <= ls@.len(),
            all == views(ls@),
            views(parts@) == all.take(i as int).map_values(|l: Seq<char>| prefix@ + l),
        decreases ls@.len() - i,
    {
        let mut p = chars_of(prefix);
        extend_chars(&mut p, ls[i].as_slice());
        let ghost before = views(parts@);
        assert(p@ == prefix@ + all[i as int]);
        parts.push(p);
        assert(views(parts@) =~= before.push(p@));
        assert(views(parts@) =~= all.take(i + 1).map_values(|l: Seq<char>| prefix@ + l));
        i += 1;
    }
    assert(all.take(i as int) =~= all);
    let j = join_parts(&parts, "\n");
    proof {
        reveal_strlit("\n");
        assert("\n"@ =~= seq!['\n']);
    }
    string_of(j.as_slice())
}

/// The changed lines between two texts, position by position: a changed line
/// becomes `-old` then `+new`, extra lines on either side `-old` or `+new`.
pub open spec fn line_diff_from(a: Seq<Seq<char>>, b: Seq<Seq<char>>, i: nat) -> Seq<Seq<char>>
    decreases (if a.len() > b.len() { a.len() } else { b.len() }) - i,
{
    let max = if a.len() > b.len() { a.len() } else { b.len() };
    if i >= max {
        Seq::empty()
    } else {
        let here = if i < a.len() && i < b.len() {
            if a[i as int] == b[i as int] {
                Seq::empty()
            } else {
                seq![seq!['-'] + a[i as int], seq!['+'] + b[i as int]]
            }
        } else if i < a.len() {
            seq![seq!['-'] + a[i as int]]
        } else {
            seq![seq!['+'] + b[i as int]]
        };
        here + line_diff_from(a, b, i + 1)
    }
}

pub open spec fn line_diff_spec(before: Seq<char>, after: Seq<char>) -> Seq<char> {
    let d = line_diff_from(lines(before), lines(after), 0);
    if d.len() == 0 { "(metadata changed only)"@ } else { join(d, seq!['\n']) }
}

pub fn simple_line_diff(before: &str, after: &str) -> (out: String)
    ensures
        out@ == line_diff_spec(before@, after@),
{
    let bc = chars_of(before);
    let ac = chars_of(after);
    let bl = split_lines(bc.as_slice());
    let al = split_lines(ac.as_slice());
    let ghost a = views(bl@);
    let ghost b = views(al@);
    let max = if bl.len() > al.len() { bl.len() } else { al.len() };
    let mut out: Vec<Vec<char>> = Vec::new();
    let mut i: usize = 0;
    while i < max
        invariant
            i <= max,
            max == (if a.len() > b.len() { a.len() } else { b.len() }),
            a == views(bl@),
            b == views(al@),
            views(out@) + line_diff_from(a, b, i as nat) == line_diff_from(a, b, 0),
        decreases max - i,
    {
        let ghost before_out = views(out@);
        if i < bl.len() && i < al.len() {
            assert(a[i as int] == bl@[i as int]@ && b[i as int] == al@[i as int]@);
            if !crate::text::chars_eq(bl[i].as_slice(), al[i].as_slice()) {
                let mut m = vec!['-'];
                extend_chars(&mut m, bl[i].as_slice());
                assert(m@ =~= seq!['-'] + a[i as int]);
                let mut p = vec!['+'];
                extend_chars(&mut p, al[i].as_slice());
                assert(p@ =~= seq!['+'] + b[i as int]);
                let ghost mv = m@;
                let ghost pv = p@;
                out.push(m);
                out.push(p);
                assert(views(out@) =~= before_out.push(mv).push(pv));
                assert(views(out@) =~= before_out + seq![seq!['-'] + a[i as int], seq!['+'] + b[i as int]]);
            } else {
                assert(views(out@) =~= before_out + Seq::<Seq<char>>::empty());
            }
        } else if i < bl.len() {
            assert(a[i as int] == bl@[i as int]@);
            let mut m = vec!['-'];
            extend_chars(&mut m, bl[i].as_slice());
            assert(m@ =~= seq!['-'] + a[i as int]);
            let ghost mv = m@;
            out.push(m);
            assert(views(out@) =~= before_out.push(mv));
            assert(views(out@) =~= before_out + seq![seq!['-'] + a[i as int]]);
        } else {
            assert(b[i as int] == al@[i as int]@);
            let mut p = vec!['+'];
            extend_chars(&mut p, al[i].as_slice());
            assert(p@ =~= seq!['+'] + b[i as int]);
            let ghost pv = p@;
            out.push(p);
            assert(views(out@) =~= before_out.push(pv));
            assert(views(out@) =~= before_out + seq![seq!['+'] + b[i as int]]);
        }
        i += 1;
    }
    assert(views(out@) =~= line_diff_from(a, b, 0));
    if out.len() == 0 {
        return String::from_str("(metadata changed only)");
    }
    let j = join_parts(&out, "\n");
    proof {
        reveal_strlit("\n");
        assert("\n"@ =~= seq!['\n']);
    }
    string_of(j.as_slice())
}


// ---------------------------------------------------------------------------
// Commands
// ---------------------------------------------------------------------------

/// What a line of input asks of the memory store.
#[derive(Clone, Copy, Debug, PartialEq, Eq, Structural)]
pub enum MemoryCommandKind {
    Help,
    Remember,
    Forget,
    ShowMemories,
    SetMemories,
    ShowIdentity,
    SetIdentity,
    ShowHandoff,
    SetHandoff,
    ShowProject,
    SetProject,
    MemoryMode,
    Privacy,
    Search,
    Compact,
    Sessions,
    Resume,
    Last,
    ShowConfig,
    ClearConfig,
    ShowPrompt,
    SetPrompt,
    ClearPrompt,
    ShowShortcuts,
    AddShortcut,
    RemoveShortcut,
    Unknown,
}

/// A memory command and its argument (empty for commands that take none).
pub struct MemoryCommand {
    pub kind: MemoryCommandKind,
    pub arg: String,
}

/// `s` with the prefix `p` taken off.
pub open spec fn after(s: Seq<char>, p: Seq<char>) -> Seq<char> {
    s.skip(p.len() as int)
}

pub open spec fn bare(k: MemoryCommandKind) -> Option<(MemoryCommandKind, Seq<char>)> {
    Some((k, Seq::empty()))
}

/// The memory command a line is, tried in this order; `None` for a line
/// that is not a command at all.
pub open spec fn memory_command_spec(s: Seq<char>) -> Option<(MemoryCommandKind, Seq<char>)> {
    if s == "/help"@ {
        bare(MemoryCommandKind::Help)
    } else if "/remember "@.is_prefix_of(s) {
        Some((MemoryCommandKind::Remember, after(s, "/remember "@)))
    } else if "/forget "@.is_prefix_of(s) {
        Some((MemoryCommandKind::Forget, after(s, "/forget "@)))
    } else if s == "/memories"@ || s == "/inspect"@ {
        bare(MemoryCommandKind::ShowMemories)
    } else if "/memories set "@.is_prefix_of(s) {
        Some((MemoryCommandKind::SetMemories, after(s, "/memories set "@)))
    } else if s == "/identity"@ {
        bare(MemoryCommandKind::ShowIdentity)
    } else if "/identity set "@.is_prefix_of(s) {
        Some((MemoryCommandKind::SetIdentity, after(s, "/identity set "@)))
    } else if s == "/handoff"@ {
        bare(MemoryCommandKind::ShowHandoff)
    } else if "/handoff set "@.is_prefix_of(s) {
        Some((MemoryCommandKind::SetHandoff, after(s, "/handoff set "@)))
    } else if s == "/biscuits"@ {
        bare(MemoryCommandKind::ShowProject)
    } else if "/biscuits set "@.is_prefix_of(s) {
        Some((MemoryCommandKind::SetProject, after(s, "/biscuits set "@)))
    } else if "/memory-mode"@.is_prefix_of(s) {
        Some((MemoryCommandKind::MemoryMode, trim(after(s, "/memory-mode"@))))
    } else if "/privacy"@.is_prefix_of(s) {
        Some((MemoryCommandKind::Privacy, trim(after(s, "/privacy"@))))
    } else if "/search "@.is_prefix_of(s) {
        Some((MemoryCommandKind::Search, after(s, "/search "@)))
    } else {
        session_command_spec(s)
    }
}

/// The second half of `memory_command_spec`: sessions, configuration and
/// shortcuts, then any other slash command.
pub open spec fn session_command_spec(s: Seq<char>) -> Option<(MemoryCommandKind, Seq<char>)> {
    if s == "/compact"@ {
        bare(MemoryCommandKind::Compact)
    } else if s == "/sessions"@ {
        bare(MemoryCommandKind::Sessions)
    } else if "/resume "@.is_prefix_of(s) {
        Some((MemoryCommandKind::Resume, trim(after(s, "/resume "@))))
    } else if s == "/last"@ {
        bare(MemoryCommandKind::Last)
    } else if s == "/config"@ {
        bare(MemoryCommandKind::ShowConfig)
    } else if s == "/config clear"@ {
        bare(MemoryCommandKind::ClearConfig)
    } else if "/config prompt "@.is_prefix_of(s) {
        if trim(after(s, "/config prompt "@)) == "clear"@ {
            bare(MemoryCommandKind::ClearPrompt)
        } else {
            Some((MemoryCommandKind::SetPrompt, trim(after(s, "/config prompt "@))))
        }
    } else if s == "/config prompt"@ {
        bare(MemoryCommandKind::ShowPrompt)
    } else if s == "/shortcut"@ || s == "/shortcuts"@ {
        bare(MemoryCommandKind::ShowShortcuts)
    } else if "/shortcut add "@.is_prefix_of(s) {
        Some((MemoryCommandKind::AddShortcut, after(s, "/shortcut add "@)))
    } else if "/shortcut remove "@.is_prefix_of(s) {
        Some((MemoryCommandKind::RemoveShortcut, trim(after(s, "/shortcut remove "@))))
    } else if s.len() > 0 && s[0] == '/' {
        bare(MemoryCommandKind::Unknown)
    } else {
        None
    }
}

/// After a turn: nothing is learned unless privacy is normal and neither
/// side of the exchange looks secret; otherwise the turn counts (the new
/// count is returned) and memories are extracted after every turn in `best`
/// mode, after every third counted turn in `hybrid` mode, and never in
/// `tool` mode.
pub open spec fn after_turn_spec(privacy: PrivacyMode, mode: MemoryMode, eligible_turns: u64, user: Seq<char>, assistant: Seq<char>) -> Option<(u64, bool)> {
    if privacy != PrivacyMode::Normal || restricted_spec(user) || restricted_spec(assistant) {
        None
    } else {
        let n = (eligible_turns + 1) as u64;
        Some((n, match mode {
            MemoryMode::BestQuality => true,
            MemoryMode::Hybrid => n % 3 == 0,
            MemoryMode::ToolOnly => false,
        }))
    }
}

/// Decide what the store learns after a turn: none when nothing is, else the
/// new count of counted turns and whether memories are extracted.
pub fn after_turn_plan(privacy: PrivacyMode, mode: MemoryMode, eligible_turns: u64, user: &str, assistant: &str) -> (r: Option<(u64, bool)>)
    requires
        eligible_turns < u64::MAX,
    ensures
        r == after_turn_spec(privacy, mode, eligible_turns, user@, assistant@),
{
    if privacy != PrivacyMode::Normal || contains_restricted(user) || contains_restricted(assistant) {
        return None;
    }
    let n = eligible_turns + 1;
    let extract = match mode {
        MemoryMode::BestQuality => true,
        MemoryMode::Hybrid => n % 3 == 0,
        MemoryMode::ToolOnly => false,
    };
    Some((n, extract))
}

/// The memory store's `/help` text.
pub const MEMORY_HELP: &'static str = "commands:\n  /clear                    start a new chat (memory and project files are preserved)\n  /remember <fact>          save a durable user memory\n  /forget <phrase>          forget memories matching phrase\n  /memories                 inspect editable user memory document\n  /memories set <text>      replace user memory document\n  /identity                 inspect agent identity document\n  /identity set <text>      replace agent identity document\n  /biscuits                 inspect project memory (BISCUITS.md)\n  /biscuits set <text>      replace project memory (BISCUITS.md)\n  /handoff                  inspect project handoff document\n  /handoff set <text>       replace project handoff document\n  /sessions                 list saved sessions (newest first)\n  /resume <id>              resume a saved session by id (prefix match)\n  /last                     resume the most recently updated session\n  /config                   show saved config profile\n  /config clear             clear saved config profile\n  /config prompt            show current system prompt\n  /config prompt <text>     set a custom system prompt\n  /config prompt clear      clear custom prompt (revert to default)\n  /shortcut                 list configured shortcuts\n  /shortcut add <key> <cmd> add a shortcut (e.g. /shortcut add ctrl+r /clear)\n  /shortcut remove <key>    remove a shortcut\n  /goal                     inspect active goal todo list\n  /goal clear               clear active goal\n  /goal json                inspect active goal JSON\n  /plan                     inspect active plan\n  /plan clear               clear active plan\n  /plan json                inspect active plan JSON\n  /observe                  inspect latest observed screen/runtime state\n  /observe workspace        inspect current workspace file snapshot\n  /observe changes          inspect file changes since last observation\n  /observe terminal         inspect latest terminal output\n  /computer-use             inspect/control the local GUI with screenshots\n  /computer-use open <url>  open an app/site, wait, and capture a screenshot\n  /computer-use click X Y   click screen coordinates and capture a screenshot\n  /browser                  show Biscuit Browser status\n  /browser use              install (if needed) and launch Biscuit Browser\n  /browser stop             stop the browser launched this session\n  /mcp                      show MCP server help\n  /mcp connect <name> -- <command>\n                            add and start a stdio MCP server\n  /mcp list                 list configured MCP servers\n  /mcp tools [name]         list tools exposed by MCP servers\n  /mcp call <server> <tool> <json>\n                            call an MCP tool with JSON arguments\n  /skills                   list discovered skills and their status\n  /skills refresh           reload skills from disk\n  /skills show <name>       show a skill's metadata and file path\n  /skills enable <name>     enable a skill (source file untouched)\n  /skills disable <name>    disable a skill (source file untouched)\n  /skills selected <msg>    show which skills a message would select\n  /memory-mode              show memory mode\n  /memory-mode best         extract after every normal turn\n  /memory-mode hybrid       extract every third normal turn\n  /memory-mode tool         only save explicit /remember memories\n  /privacy                  show privacy mode\n  /privacy normal           save, index, and memorize\n  /privacy ephemeral        do not save or memorize this session\n  /privacy incognito        no save, no memorize, no graph retrieval\n  /search <query>           search saved memories and conversations\n  /compact                  compact the current saved conversation\n";

/// The answer a command gets that needs nothing from the store's files: the
/// help, the confirmations of the commands that replace a document or
/// remember a fact, and the answer to a slash command the store does not
/// know. The other commands answer with what the store holds.
pub open spec fn fixed_reply_spec(kind: MemoryCommandKind) -> Option<Seq<char>> {
    match kind {
        MemoryCommandKind::Help => Some(MEMORY_HELP@),
        MemoryCommandKind::Remember => Some("remembered"@),
        MemoryCommandKind::SetMemories => Some("user memories document replaced"@),
        MemoryCommandKind::SetIdentity => Some("agent identity document replaced"@),
        MemoryCommandKind::SetHandoff => Some("handoff document replaced"@),
        MemoryCommandKind::SetProject => Some("project memory (BISCUITS.md) replaced"@),
        MemoryCommandKind::Compact => Some("conversation compacted"@),
        MemoryCommandKind::ClearPrompt => Some("custom system prompt cleared; using default"@),
        MemoryCommandKind::Unknown => Some("unknown command. type /help"@),
        _ => None,
    }
}

/// The fixed answer to a command of `kind`, if it has one.
pub fn fixed_reply(kind: MemoryCommandKind) -> (r: Option<&'static str>)
    ensures
        match r {
            Some(t) => fixed_reply_spec(kind) == Some(t@),
            None => fixed_reply_spec(kind) is None,
        },
{
    match kind {
        MemoryCommandKind::Help => Some(MEMORY_HELP),
        MemoryCommandKind::Remember => Some("remembered"),
        MemoryCommandKind::SetMemories => Some("user memories document replaced"),
        MemoryCommandKind::SetIdentity => Some("agent identity document replaced"),
        MemoryCommandKind::SetHandoff => Some("handoff document replaced"),
        MemoryCommandKind::SetProject => Some("project memory (BISCUITS.md) replaced"),
        MemoryCommandKind::Compact => Some("conversation compacted"),
        MemoryCommandKind::ClearPrompt => Some("custom system prompt cleared; using default"),
        MemoryCommandKind::Unknown => Some("unknown command. type /help"),
        _ => None,
    }
}

/// The answer of the store to a line of input when that answer is fixed:
/// none for a line that is no command (plain text goes to the model) and
/// for commands whose answer comes from the store's files.
pub fn command_reply(input: &str) -> (r: Option<String>)
    ensures
        match memory_command_spec(input@) {
            Some((kind, _)) => match fixed_reply_spec(kind) {
                Some(t) => r matches Some(s) && s@ == t,
                None => r is None,
            },
            None => r is None,
        },
{
    match memory_command(input) {
        Some(c) => match fixed_reply(c.kind) {
            Some(t) => Some(String::from_str(t)),
            None => None,
        },
        None => None,
    }
}

/// `/forget`: how many memories matched.
pub fn forgot_reply(n: usize) -> (out: String)
    ensures
        out@ == "forgot "@ + decimal(n as nat) + " matching memories"@,
{
    let mut v = chars_of("forgot ");
    let d = decimal_string(n as u64);
    extend_chars(&mut v, d.as_slice());
    extend_str(&mut v, " matching memories");
    string_of(v.as_slice())
}

/// `/identity`, `/handoff`, `/biscuits`: the document without trailing
/// whitespace, then the file it lives in.
pub fn document_reply(text: &str, file: &str) -> (out: String)
    ensures
        out@ == crate::text::trim_end(text@) + "\n\nfile: "@ + file@,
{
    let t = chars_of(text);
    let k = crate::text::trim_end_index(t.as_slice());
    let mut v = slice_chars(t.as_slice(), 0, k);
    extend_str(&mut v, "\n\nfile: ");
    extend_str(&mut v, file);
    string_of(v.as_slice())
}

/// `/memories`: the user's memory document without trailing whitespace,
/// then how many structured memories are active.
pub fn memories_reply(text: &str, active: usize) -> (out: String)
    ensures
        out@ == crate::text::trim_end(text@) + "\n\nstructured memories: "@ + decimal(active as nat),
{
    let t = chars_of(text);
    let k = crate::text::trim_end_index(t.as_slice());
    let mut v = slice_chars(t.as_slice(), 0, k);
    extend_str(&mut v, "\n\nstructured memories: ");
    let d = decimal_string(active as u64);
    extend_chars(&mut v, d.as_slice());
    string_of(v.as_slice())
}

/// The characters after the prefix `p`, when `c` starts with it.
fn rest_after(c: &[char], p: &str) -> (r: Option<Vec<char>>)
    ensures
        r is Some <==> p@.is_prefix_of(c@),
        r matches Some(v) ==> v@ == after(c@, p@),
{
    if starts_with_str(c, p) {
        let n = p.unicode_len();
        Some(slice_chars(c, n, c.len()))
    } else {
        None
    }
}

fn command_of(kind: MemoryCommandKind, arg: &[char]) -> (r: Option<MemoryCommand>)
    ensures
        r matches Some(m) && m.kind == kind && m.arg@ == arg@,
{
    Some(MemoryCommand { kind, arg: string_of(arg) })
}

fn bare_command(kind: MemoryCommandKind) -> (r: Option<MemoryCommand>)
    ensures
        r matches Some(m) && m.kind == kind && m.arg@ == Seq::<char>::empty(),
{
    Some(MemoryCommand { kind, arg: String::new() })
}

/// Whether `r` is what `spec` describes.
pub open spec fn command_matches(r: Option<MemoryCommand>, spec: Option<(MemoryCommandKind, Seq<char>)>) -> bool {
    match r {
        Some(m) => spec == Some((m.kind, m.arg@)),
        None => spec is None,
    }
}

/// Which memory command `input` is (the dispatch of the store's slash
/// commands); the store then carries it out.
pub fn memory_command(input: &str) -> (r: Option<MemoryCommand>)
    ensures
        command_matches(r, memory_command_spec(input@)),
{
    let c = chars_of(input);
    let x = c.as_slice();
    if chars_eq_str(x, "/help") {
        return bare_command(MemoryCommandKind::Help);
    }
    if let Some(v) = rest_after(x, "/remember ") {
        return command_of(MemoryCommandKind::Remember, v.as_slice());
    }
    if let Some(v) = rest_after(x, "/forget ") {
        return command_of(MemoryCommandKind::Forget, v.as_slice());
    }
    if chars_eq_str(x, "/memories") || chars_eq_str(x, "/inspect") {
        return bare_command(MemoryCommandKind::ShowMemories);
    }
    if let Some(v) = rest_after(x, "/memories set ") {
        return command_of(MemoryCommandKind::SetMemories, v.as_slice());
    }
    if chars_eq_str(x, "/identity") {
        return bare_command(MemoryCommandKind::ShowIdentity);
    }
    if let Some(v) = rest_after(x, "/identity set ") {
        return command_of(MemoryCommandKind::SetIdentity, v.as_slice());
    }
    if chars_eq_str(x, "/handoff") {
        return bare_command(MemoryCommandKind::ShowHandoff);
    }
    if let Some(v) = rest_after(x, "/handoff set ") {
        return command_of(MemoryCommandKind::SetHandoff, v.as_slice());
    }
    if chars_eq_str(x, "/biscuits") {
        return bare_command(MemoryCommandKind::ShowProject);
    }
    if let Some(v) = rest_after(x, "/biscuits set ") {
        return command_of(MemoryCommandKind::SetProject, v.as_slice());
    }
    if let Some(v) = rest_after(x, "/memory-mode") {
        let t = trim_chars(v.as_slice());
        return command_of(MemoryCommandKind::MemoryMode, t.as_slice());
    }
    if let Some(v) = rest_after(x, "/privacy") {
        let t = trim_chars(v.as_slice());
        return command_of(MemoryCommandKind::Privacy, t.as_slice());
    }
    if let Some(v) = rest_after(x, "/search ") {
        return command_of(MemoryCommandKind::Search, v.as_slice());
    }
    session_command(x)
}

fn session_command(x: &[char]) -> (r: Option<MemoryCommand>)
    ensures
        command_matches(r, session_command_spec(x@)),
{
    if chars_eq_str(x, "/compact") {
        return bare_command(MemoryCommandKind::Compact);
    }
    if chars_eq_str(x, "/sessions") {
        return bare_command(MemoryCommandKind::Sessions);
    }
    if let Some(v) = rest_after(x, "/resume ") {
        let t = trim_chars(v.as_slice());
        return command_of(MemoryCommandKind::Resume, t.as_slice());
    }
    if chars_eq_str(x, "/last") {
        return bare_command(MemoryCommandKind::Last);
    }
    if chars_eq_str(x, "/config") {
        return bare_command(MemoryCommandKind::ShowConfig);
    }
    if chars_eq_str(x, "/config clear") {
        return bare_command(MemoryCommandKind::ClearConfig);
    }
    if let Some(v) = rest_after(x, "/config prompt ") {
        let t = trim_chars(v.as_slice());
        if chars_eq_str(t.as_slice(), "clear") {
            return bare_command(MemoryCommandKind::ClearPrompt);
        }
        return command_of(MemoryCommandKind::SetPrompt, t.as_slice());
    }
    if chars_eq_str(x, "/config prompt") {
        return bare_command(MemoryCommandKind::ShowPrompt);
    }
    if chars_eq_str(x, "/shortcut") || chars_eq_str(x, "/shortcuts") {
        return bare_command(MemoryCommandKind::ShowShortcuts);
    }
    if let Some(v) = rest_after(x, "/shortcut add ") {
        return command_of(MemoryCommandKind::AddShortcut, v.as_slice());
    }
    if let Some(v) = rest_after(x, "/shortcut remove ") {
        let t = trim_chars(v.as_slice());
        return command_of(MemoryCommandKind::RemoveShortcut, t.as_slice());
    }
    if x.len() > 0 && x[0] == '/' {
        return bare_command(MemoryCommandKind::Unknown);
    }
    None
}

// ---------------------------------------------------------------------------
// Memory mode and privacy
// ---------------------------------------------------------------------------

/// When the store writes memories on its own.
#[derive(Clone, Copy, Debug, PartialEq, Eq, Structural)]
pub enum MemoryMode {
    BestQuality,
    Hybrid,
    ToolOnly,
}

/// What may be kept of a conversation.
#[derive(Clone, Copy, Debug, PartialEq, Eq, Structural)]
pub enum PrivacyMode {
    Normal,
    Ephemeral,
    Incognito,
}

pub open spec fn mode_name_spec(m: MemoryMode) -> Seq<char> {
    match m {
        MemoryMode::BestQuality => "best"@,
        MemoryMode::Hybrid => "hybrid"@,
        MemoryMode::ToolOnly => "tool"@,
    }
}

pub open spec fn privacy_name_spec(p: PrivacyMode) -> Seq<char> {
    match p {
        PrivacyMode::Normal => "normal"@,
        PrivacyMode::Ephemeral => "ephemeral"@,
        PrivacyMode::Incognito => "incognito"@,
    }
}

/// The name a memory mode is shown under.
pub fn mode_name(m: MemoryMode) -> (s: &'static str)
    ensures
        s@ == mode_name_spec(m),
{
    match m {
        MemoryMode::BestQuality => "best",
        MemoryMode::Hybrid => "hybrid",
        MemoryMode::ToolOnly => "tool",
    }
}

/// The name a privacy mode is shown under.
pub fn privacy_name(p: PrivacyMode) -> (s: &'static str)
    ensures
        s@ == privacy_name_spec(p),
{
    match p {
        PrivacyMode::Normal => "normal",
        PrivacyMode::Ephemeral => "ephemeral",
        PrivacyMode::Incognito => "incognito",
    }
}

/// The memory mode a word names, with its aliases.
pub open spec fn memory_mode_of(w: Seq<char>) -> Option<MemoryMode> {
    if w == "always"@ || w == "on"@ || w == "best"@ || w == "best_quality"@ {
        Some(MemoryMode::BestQuality)
    } else if w == "hybrid"@ {
        Some(MemoryMode::Hybrid)
    } else if w == "tool"@ || w == "tool_only"@ || w == "manual"@ {
        Some(MemoryMode::ToolOnly)
    } else {
        None
    }
}

/// The privacy mode a word names.
pub open spec fn privacy_mode_of(w: Seq<char>) -> Option<PrivacyMode> {
    if w == "normal"@ {
        Some(PrivacyMode::Normal)
    } else if w == "ephemeral"@ {
        Some(PrivacyMode::Ephemeral)
    } else if w == "incognito"@ {
        Some(PrivacyMode::Incognito)
    } else {
        None
    }
}

/// The answer to `/memory-mode <word>` under mode `current`: the mode to
/// switch to (and save), if any, and the reply. An empty word shows the
/// current mode; an unknown one changes nothing.
pub fn memory_mode_command(current: MemoryMode, word: &str) -> (r: (Option<MemoryMode>, String))
    ensures
        word@.len() == 0 ==> r.0 is None && r.1@ == "memory mode: "@ + mode_name_spec(current)
            + "\nnormal privacy controls whether turns can be saved or memorized"@,
        word@.len() > 0 ==> r.0 == memory_mode_of(word@) && r.1@ == match memory_mode_of(word@) {
            Some(m) => "memory mode: "@ + mode_name_spec(m),
            None => "unknown mode. use best, hybrid, or tool"@,
        },
{
    let c = chars_of(word);
    let x = c.as_slice();
    if x.len() == 0 {
        let mut out: Vec<char> = Vec::new();
        extend_str(&mut out, "memory mode: ");
        extend_str(&mut out, mode_name(current));
        extend_str(&mut out, "\nnormal privacy controls whether turns can be saved or memorized");
        return (None, string_of(out.as_slice()));
    }
    let m = if chars_eq_str(x, "always") || chars_eq_str(x, "on") || chars_eq_str(x, "best")
        || chars_eq_str(x, "best_quality") {
        MemoryMode::BestQuality
    } else if chars_eq_str(x, "hybrid") {
        MemoryMode::Hybrid
    } else if chars_eq_str(x, "tool") || chars_eq_str(x, "tool_only") || chars_eq_str(x, "manual") {
        MemoryMode::ToolOnly
    } else {
        return (None, String::from_str("unknown mode. use best, hybrid, or tool"));
    };
    let mut out: Vec<char> = Vec::new();
    extend_str(&mut out, "memory mode: ");
    extend_str(&mut out, mode_name(m));
    (Some(m), string_of(out.as_slice()))
}

/// The answer to `/privacy <word>` under privacy `current`: the privacy
/// to switch to (and save), if any, and the reply.
pub fn privacy_command(current: PrivacyMode, word: &str) -> (r: (Option<PrivacyMode>, String))
    ensures
        word@.len() == 0 ==> r.0 is None && r.1@ == "privacy: "@ + privacy_name_spec(current)
            + "\nset with /privacy normal | ephemeral | incognito"@,
        word@.len() > 0 ==> r.0 == privacy_mode_of(word@) && r.1@ == match privacy_mode_of(word@) {
            Some(p) => "privacy: "@ + privacy_name_spec(p),
            None => "unknown privacy mode. use normal, ephemeral, or incognito"@,
        },
{
    let c = chars_of(word);
    let x = c.as_slice();
    if x.len() == 0 {
        let mut out: Vec<char> = Vec::new();
        extend_str(&mut out, "privacy: ");
        extend_str(&mut out, privacy_name(current));
        extend_str(&mut out, "\nset with /privacy normal | ephemeral | incognito");
        return (None, string_of(out.as_slice()));
    }
    let p = if chars_eq_str(x, "normal") {
        PrivacyMode::Normal
    } else if chars_eq_str(x, "ephemeral") {
        PrivacyMode::Ephemeral
    } else if chars_eq_str(x, "incognito") {
        PrivacyMode::Incognito
    } else {
        return (None, String::from_str("unknown privacy mode. use normal, ephemeral, or incognito"));
    };
    let mut out: Vec<char> = Vec::new();
    extend_str(&mut out, "privacy: ");
    extend_str(&mut out, privacy_name(p));
    (Some(p), string_of(out.as_slice()))
}

// ---------------------------------------------------------------------------
// Change snapshots
// ---------------------------------------------------------------------------

/// Files larger than this are hashed by size and time and kept without text.
pub const MAX_LOG_TEXT_BYTES: u64 = 200000;
/// The walk stops (and marks the snapshot truncated) at this many files.
pub const MAX_LOG_SNAPSHOT_FILES: usize = 2000;
/// The diff section of a log entry stops near this many bytes.
pub const MAX_LOG_ENTRY_CHARS: usize = 40000;
/// One file's diff is cut at this many characters.
pub const MAX_LOG_FILE_DIFF_CHARS: usize = 8000;

/// What a change snapshot records of one file: its size, modification time,
/// a content hash and, for small text files, the (redacted) text.
pub struct SnapshotFile {
    pub len: u64,
    pub modified_nanos: u128,
    pub hash: u64,
    pub text: Option<String>,
}

pub open spec fn opt_text(t: Option<String>) -> Option<Seq<char>> {
    match t {
        Some(s) => Some(s@),
        None => None,
    }
}

/// The recorded facts of a file, compared field by field.
pub open spec fn file_view(f: SnapshotFile) -> (u64, u128, u64, Option<Seq<char>>) {
    (f.len, f.modified_nanos, f.hash, opt_text(f.text))
}

/// Whether two records agree in every field.
pub fn same_file(a: &SnapshotFile, b: &SnapshotFile) -> (r: bool)
    ensures
        r == (file_view(*a) == file_view(*b)),
{
    if a.len != b.len || a.modified_nanos != b.modified_nanos || a.hash != b.hash {
        return false;
    }
    match (&a.text, &b.text) {
        (Some(x), Some(y)) => {
            let xc = chars_of(x.as_str());
            let yc = chars_of(y.as_str());
            crate::text::chars_eq(xc.as_slice(), yc.as_slice())
        },
        (None, None) => true,
        _ => false,
    }
}

/// The files of the workspace before or after a turn, by path (relative to
/// the workspace, forward slashes), and whether the walk stopped at its cap.
pub struct ChangeSnapshot {
    files: Vec<(String, SnapshotFile)>,
    truncated: bool,
}

/// The created, modified and deleted files between two change snapshots,
/// each list in path order.
pub struct ChangeDiff {
    pub created: Vec<String>,
    pub modified: Vec<String>,
    pub deleted: Vec<String>,
    pub truncated: bool,
}

/// Paths of `keys` recorded in both maps with different facts.
pub open spec fn changed_files(
    keys: Seq<Seq<char>>,
    before: Map<Seq<char>, SnapshotFile>,
    after: Map<Seq<char>, SnapshotFile>,
) -> Seq<Seq<char>>
    decreases keys.len(),
{
    if keys.len() == 0 {
        Seq::empty()
    } else {
        let k = keys.last();
        changed_files(keys.drop_last(), before, after) + if before.dom().contains(k) && file_view(before[k])
            != file_view(after[k]) {
            seq![k]
        } else {
            Seq::empty()
        }
    }
}

/// What comparing `before` with `after` reports.
pub open spec fn change_diff_matches(d: ChangeDiff, before: ChangeSnapshot, after: ChangeSnapshot) -> bool {
    &&& strings_view(d.created@) == created_paths(after.paths(), before.map())
    &&& strings_view(d.modified@) == changed_files(after.paths(), before.map(), after.map())
    &&& strings_view(d.deleted@) == created_paths(before.paths(), after.map())
    &&& d.truncated == (before.is_truncated() || after.is_truncated())
}

impl ChangeSnapshot {
    #[verifier::type_invariant]
    spec fn wf(&self) -> bool {
        sorted_keys(keys_of(self.files@))
    }

    /// The snapshot as a map from path to record.
    pub closed spec fn map(&self) -> Map<Seq<char>, SnapshotFile> {
        files_map(self.files@)
    }

    /// The paths in order.
    pub closed spec fn paths(&self) -> Seq<Seq<char>> {
        keys_of(self.files@)
    }

    pub closed spec fn is_truncated(&self) -> bool {
        self.truncated
    }

    pub fn new() -> (s: ChangeSnapshot)
        ensures
            s.map() == Map::<Seq<char>, SnapshotFile>::empty(),
            s.paths().len() == 0,
            !s.is_truncated(),
    {
        ChangeSnapshot { files: Vec::new(), truncated: false }
    }

    /// Number of files recorded.
    pub fn len(&self) -> (n: usize)
        ensures
            n == self.paths().len(),
    {
        self.files.len()
    }

    /// Record that the walk stopped early.
    pub fn mark_truncated(&mut self)
        ensures
            final(self).is_truncated(),
            final(self).map() == old(self).map(),
            final(self).paths() == old(self).paths(),
    {
        proof {
            use_type_invariant(&*self);
        }
        self.truncated = true;
    }

    /// Record `file` under `path`, replacing an earlier record of it.
    pub fn insert(&mut self, path: String, file: SnapshotFile)
        ensures
            final(self).map() == old(self).map().insert(path@, file),
            final(self).paths().to_set() == old(self).paths().to_set().insert(path@),
            final(self).is_truncated() == old(self).is_truncated(),
    {
        proof {
            use_type_invariant(&*self);
        }
        let mut files = Vec::new();
        std::mem::swap(&mut files, &mut self.files);
        insert_sorted(&mut files, path, file);
        self.files = files;
    }

    /// The record of `path`, if any.
    pub fn get(&self, path: &[char]) -> (r: Option<&SnapshotFile>)
        ensures
            match r {
                Some(f) => self.map().dom().contains(path@) && self.map()[path@] == *f,
                None => !self.map().dom().contains(path@),
            },
    {
        proof {
            use_type_invariant(self);
        }
        match find_path(&self.files, path) {
            Some(i) => Some(&self.files[i].1),
            None => None,
        }
    }

    /// Compare with the snapshot taken after the turn.
    pub fn diff(&self, after: &ChangeSnapshot) -> (d: ChangeDiff)
        ensures
            change_diff_matches(d, *self, *after),
    {
        proof {
            use_type_invariant(self);
            use_type_invariant(after);
        }
        let mut created: Vec<String> = Vec::new();
        let mut modified: Vec<String> = Vec::new();
        let ghost ak = keys_of(after.files@);
        let mut i: usize = 0;
        while i < after.files.len()
            invariant
                i <= after.files@.len(),
                ak == keys_of(after.files@),
                sorted_keys(ak),
                strings_view(created@) == created_paths(ak.take(i as int), self.map()),
                strings_view(modified@) == changed_files(ak.take(i as int), self.map(), after.map()),
            decreases after.files@.len() - i,
        {
            assert(ak.take(i + 1).drop_last() =~= ak.take(i as int));
            assert(ak[i as int] == after.files@[i as int].0@);
            let k = chars_of(after.files[i].0.as_str());
            proof {
                lemma_files_map_entry(after.files@, i as int);
            }
            let ghost c0 = strings_view(created@);
            let ghost m0 = strings_view(modified@);
            match self.get(k.as_slice()) {
                None => {
                    created.push(after.files[i].0.clone());
                    assert(strings_view(created@) =~= c0 + seq![k@]);
                    assert(strings_view(modified@) =~= m0 + Seq::<Seq<char>>::empty());
                },
                Some(was) => {
                    if !same_file(was, &after.files[i].1) {
                        modified.push(after.files[i].0.clone());
                        assert(strings_view(modified@) =~= m0 + seq![k@]);
                    } else {
                        assert(strings_view(modified@) =~= m0 + Seq::<Seq<char>>::empty());
                    }
                    assert(strings_view(created@) =~= c0 + Seq::<Seq<char>>::empty());
                },
            }
            i += 1;
        }
        assert(ak.take(i as int) =~= ak);
        let mut deleted: Vec<String> = Vec::new();
        let ghost bk = keys_of(self.files@);
        let mut j: usize = 0;
        while j < self.files.len()
            invariant
                j <= self.files@.len(),
                bk == keys_of(self.files@),
                strings_view(deleted@) == created_paths(bk.take(j as int), after.map()),
            decreases self.files@.len() - j,
        {
            assert(bk.take(j + 1).drop_last() =~= bk.take(j as int));
            assert(bk[j as int] == self.files@[j as int].0@);
            let k = chars_of(self.files[j].0.as_str());
            let ghost d0 = strings_view(deleted@);
            match after.get(k.as_slice()) {
                None => {
                    deleted.push(self.files[j].0.clone());
                    assert(strings_view(deleted@) =~= d0 + seq![k@]);
                },
                Some(_) => {
                    assert(strings_view(deleted@) =~= d0 + Seq::<Seq<char>>::empty());
                },
            }
            j += 1;
        }
        assert(bk.take(j as int) =~= bk);
        ChangeDiff { created, modified, deleted, truncated: self.truncated || after.truncated }
    }
}

impl ChangeDiff {
    /// No file was created, modified or deleted.
    pub fn is_empty(&self) -> (b: bool)
        ensures
            b == (self.created@.len() == 0 && self.modified@.len() == 0 && self.deleted@.len() == 0),
    {
        self.created.len() == 0 && self.modified.len() == 0 && self.deleted.len() == 0
    }
}

proof fn lemma_changed_same_map(keys: Seq<Seq<char>>, m: Map<Seq<char>, SnapshotFile>)
    ensures
        changed_files(keys, m, m).len() == 0,
    decreases keys.len(),
{
    if keys.len() > 0 {
        lemma_changed_same_map(keys.drop_last(), m);
    }
}

/// Comparing a change snapshot with itself finds nothing created, modified
/// or deleted, so a turn that touches no file writes no log entry.
pub proof fn law_change_snapshot_has_no_changes_against_itself(s: ChangeSnapshot)
    ensures
        created_paths(s.paths(), s.map()).len() == 0,
        changed_files(s.paths(), s.map(), s.map()).len() == 0,
{
    lemma_keys_in_map(s.files@);
    lemma_created_of_own_keys(s.paths(), s.map());
    lemma_changed_same_map(s.paths(), s.map());
}

// ---------------------------------------------------------------------------
// Recording a file
// ---------------------------------------------------------------------------

/// `std::hash::DefaultHasher` over `bytes`, fed as `<[u8] as Hash>::hash`
/// feeds it. Its value is not stable across Rust releases, so nothing is
/// claimed of it: it is only compared with an earlier hash in the same run.
#[verifier::external_body]
pub(crate) fn bytes_hash(bytes: &[u8]) -> u64 {
    let mut hasher = std::collections::hash_map::DefaultHasher::new();
    std::hash::Hash::hash(bytes, &mut hasher);
    std::hash::Hasher::finish(&hasher)
}

/// `String::from_utf8`: the text the bytes encode, when they are UTF-8.
#[verifier::external_body]
pub(crate) fn text_of_bytes(bytes: &[u8]) -> (r: Option<String>)
    ensures
        r is Some <==> vstd::utf8::valid_utf8(bytes@),
        r matches Some(s) ==> s@ == vstd::utf8::decode_utf8(bytes@),
{
    String::from_utf8(bytes.to_vec()).ok()
}

/// The text kept of a file of `len` bytes whose contents read as `bytes`
/// (none when it could not be read): none for large, unreadable, binary or
/// non-UTF-8 files, else the redacted text.
pub open spec fn file_text_spec(len: u64, bytes: Option<Seq<u8>>) -> Option<Seq<char>> {
    if len > MAX_LOG_TEXT_BYTES {
        None
    } else {
        match bytes {
            None => None,
            Some(b) => if crate::observations::binary_spec(b) || !vstd::utf8::valid_utf8(b) {
                None
            } else {
                Some(scrub_spec(vstd::utf8::decode_utf8(b)))
            },
        }
    }
}

/// The record of a file of `len` bytes modified at `modified_nanos`, whose
/// contents are `bytes` (none when it could not be read; a file larger than
/// the text limit need not be read). The hash is of the contents, or of
/// `"<len>:<modified_nanos>"` when they are not at hand.
pub fn file_record(len: u64, modified_nanos: u128, bytes: Option<&[u8]>) -> (f: SnapshotFile)
    ensures
        f.len == len,
        f.modified_nanos == modified_nanos,
        opt_text(f.text) == file_text_spec(len, match bytes { Some(b) => Some(b@), None => None }),
{
    let b = match bytes {
        Some(b) => b,
        None => {
            return SnapshotFile { len, modified_nanos, hash: stamp_hash(len, modified_nanos), text: None };
        },
    };
    if len > MAX_LOG_TEXT_BYTES {
        return SnapshotFile { len, modified_nanos, hash: stamp_hash(len, modified_nanos), text: None };
    }
    let hash = bytes_hash(b);
    if crate::observations::looks_binary(b) {
        return SnapshotFile { len, modified_nanos, hash, text: None };
    }
    let text = match text_of_bytes(b) {
        Some(t) => Some(redact_text(t.as_str())),
        None => None,
    };
    SnapshotFile { len, modified_nanos, hash, text }
}

/// The hash of the text `"<len>:<modified_nanos>"`, standing in for the
/// contents of a file that is not read. The text is built here; its hash
/// comes from `text_hash` (`DefaultHasher` over the bytes, which feeds it a
/// native-width length prefix), so its value depends on the machine and the
/// standard library release and nothing is claimed of it: it is only compared
/// with a hash taken earlier in the same run.
fn stamp_hash(len: u64, modified_nanos: u128) -> u64 {
    let mut v = decimal_string(len);
    v.push(':');
    let m = crate::text::decimal_string_u128(modified_nanos);
    extend_chars(&mut v, m.as_slice());
    let s = string_of(v.as_slice());
    crate::observations::text_hash(s.as_str())
}

// ---------------------------------------------------------------------------
// Change log entries
// ---------------------------------------------------------------------------

/// `- label: path` lines for the paths, in order.
pub open spec fn path_lines(label: Seq<char>, paths: Seq<Seq<char>>) -> Seq<char>
    decreases paths.len(),
{
    if paths.len() == 0 {
        Seq::empty()
    } else {
        path_lines(label, paths.drop_last()) + "- "@ + label + ": "@ + paths.last() + "\n"@
    }
}

/// At most forty `- label: path` lines, then a count of the rest.
pub open spec fn changed_file_lines(label: Seq<char>, paths: Seq<Seq<char>>) -> Seq<char> {
    if paths.len() <= 40 {
        path_lines(label, paths)
    } else {
        path_lines(label, paths.take(40)) + "- "@ + label + ": ... and "@ + decimal((paths.len() - 40) as nat)
            + " more\n"@
    }
}

/// Append the lines of one kind of change to `out`.
pub fn push_changed_files(out: &mut Vec<char>, label: &str, paths: &[String])
    ensures
        final(out)@ == old(out)@ + changed_file_lines(label@, strings_view(paths@)),
{
    let ghost all = strings_view(paths@);
    let ghost start = out@;
    let n: usize = if paths.len() < 40 { paths.len() } else { 40 };
    let mut i: usize = 0;
    while i < n
        invariant
            i <= n,
            n <= paths@.len(),
            n == (if paths@.len() < 40 { paths@.len() } else { 40 }),
            all == strings_view(paths@),
            out@ == start + path_lines(label@, all.take(i as int)),
        decreases n - i,
    {
        let ghost before = out@;
        extend_str(out, "- ");
        extend_str(out, label);
        extend_str(out, ": ");
        extend_str(out, paths[i].as_str());
        extend_str(out, "\n");
        assert(all.take(i + 1).drop_last() =~= all.take(i as int));
        assert(all.take(i + 1).last() == paths@[i as int]@);
        assert(out@ =~= before + "- "@ + label@ + ": "@ + paths@[i as int]@ + "\n"@);
        i += 1;
    }
    if paths.len() > 40 {
        extend_str(out, "- ");
        extend_str(out, label);
        extend_str(out, ": ... and ");
        let d = decimal_string((paths.len() - 40) as u64);
        extend_chars(out, d.as_slice());
        extend_str(out, " more\n");
        assert(out@ =~= start + changed_file_lines(label@, all));
    } else {
        assert(all.take(i as int) =~= all);
    }
}

pub open spec fn omitted_diff(path: Seq<char>) -> Seq<char> {
    "\n```diff\n--- "@ + path + "\n+++ "@ + path + "\n(binary, deleted, or too large; content diff omitted)\n```\n"@
}

/// The text of a recorded file, if it was recorded with text.
pub open spec fn recorded_text(m: Map<Seq<char>, SnapshotFile>, path: Seq<char>) -> Option<Seq<char>> {
    if m.dom().contains(path) {
        opt_text(m[path].text)
    } else {
        None
    }
}

/// The fenced diff of one file: all lines added for a new text file, all
/// removed for a deleted one, the line diff when both texts are known, and a
/// note otherwise.
pub open spec fn file_diff_spec(before: Map<Seq<char>, SnapshotFile>, after: Map<Seq<char>, SnapshotFile>, path: Seq<char>) -> Seq<char> {
    match (recorded_text(before, path), recorded_text(after, path)) {
        (None, Some(a)) => if !before.dom().contains(path) {
            "\n```diff\n--- /dev/null\n+++ "@ + path + "\n"@ + prefixed_lines_spec("+"@, a) + "\n```\n"@
        } else {
            omitted_diff(path)
        },
        (Some(b), None) => if !after.dom().contains(path) {
            "\n```diff\n--- "@ + path + "\n+++ /dev/null\n"@ + prefixed_lines_spec("-"@, b) + "\n```\n"@
        } else {
            omitted_diff(path)
        },
        (Some(b), Some(a)) => "\n```diff\n--- "@ + path + "\n+++ "@ + path + "\n"@ + line_diff_spec(b, a) + "\n```\n"@,
        (None, None) => omitted_diff(path),
    }
}

fn text_of(f: Option<&SnapshotFile>) -> (r: Option<&String>)
    ensures
        match f {
            Some(x) => match r {
                Some(t) => x.text == Some(*t),
                None => x.text is None,
            },
            None => r is None,
        },
{
    match f {
        Some(x) => match &x.text {
            Some(t) => Some(t),
            None => None,
        },
        None => None,
    }
}

/// The fenced diff of `path` between two snapshots.
pub fn render_file_diff(before: &ChangeSnapshot, after: &ChangeSnapshot, path: &str) -> (out: String)
    ensures
        out@ == file_diff_spec(before.map(), after.map(), path@),
{
    let p = chars_of(path);
    let bf = before.get(p.as_slice());
    let af = after.get(p.as_slice());
    let bt = text_of(bf);
    let at = text_of(af);
    assert(recorded_text(before.map(), path@) == match bt { Some(t) => Some(t@), None => None::<Seq<char>> });
    assert(recorded_text(after.map(), path@) == match at { Some(t) => Some(t@), None => None::<Seq<char>> });
    let mut v: Vec<char> = Vec::new();
    match (bt, at) {
        (None, Some(a)) if bf.is_none() => {
            extend_str(&mut v, "\n```diff\n--- /dev/null\n+++ ");
            extend_str(&mut v, path);
            extend_str(&mut v, "\n");
            let body = prefixed_lines("+", a.as_str());
            extend_str(&mut v, body.as_str());
            extend_str(&mut v, "\n```\n");
        },
        (Some(b), None) if af.is_none() => {
            extend_str(&mut v, "\n```diff\n--- ");
            extend_str(&mut v, path);
            extend_str(&mut v, "\n+++ /dev/null\n");
            let body = prefixed_lines("-", b.as_str());
            extend_str(&mut v, body.as_str());
            extend_str(&mut v, "\n```\n");
        },
        (Some(b), Some(a)) => {
            extend_str(&mut v, "\n```diff\n--- ");
            extend_str(&mut v, path);
            extend_str(&mut v, "\n+++ ");
            extend_str(&mut v, path);
            extend_str(&mut v, "\n");
            let body = simple_line_diff(b.as_str(), a.as_str());
            extend_str(&mut v, body.as_str());
            extend_str(&mut v, "\n```\n");
        },
        _ => {
            extend_str(&mut v, "\n```diff\n--- ");
            extend_str(&mut v, path);
            extend_str(&mut v, "\n+++ ");
            extend_str(&mut v, path);
            extend_str(&mut v, "\n(binary, deleted, or too large; content diff omitted)\n```\n");
        },
    }
    string_of(v.as_slice())
}

pub open spec fn min_nat(a: nat, b: nat) -> nat {
    if a < b { a } else { b }
}

/// The diff section for `paths`, with `left` bytes of room: each file's
/// diff cut to the room (and to the per-file cap), a note where a file's
/// diff was cut, and a note where the room ran out before the files did.
pub open spec fn diff_section(
    left: nat,
    paths: Seq<Seq<char>>,
    before: Map<Seq<char>, SnapshotFile>,
    after: Map<Seq<char>, SnapshotFile>,
) -> Seq<char>
    decreases paths.len(),
{
    if paths.len() == 0 {
        Seq::empty()
    } else if left == 0 {
        "\n(diff truncated)\n"@
    } else {
        let fd = file_diff_spec(before, after, paths[0]);
        let t = truncate_dots(fd, min_nat(left, MAX_LOG_FILE_DIFF_CHARS as nat));
        if utf8_len(t) < utf8_len(fd) {
            t + "\n(file diff truncated)\n"@ + diff_section(0, paths.drop_first(), before, after)
        } else {
            t + diff_section((left - min_nat(utf8_len(t), left)) as nat, paths.drop_first(), before, after)
        }
    }
}

/// The summary at the head of a log entry.
pub open spec fn entry_summary(now: u64, created: nat, modified: nat, deleted: nat, truncated: bool, user: Seq<char>) -> Seq<char> {
    entry_counts(now, created, modified, deleted) + entry_request(user)
        + (if truncated { "- Snapshot was truncated; some changes may be omitted.\n"@ } else { Seq::empty() })
}

/// Everything of a log entry before the diffs.
pub open spec fn entry_head(now: u64, d: ChangeDiff, user: Seq<char>) -> Seq<char> {
    let c = strings_view(d.created@);
    let m = strings_view(d.modified@);
    let x = strings_view(d.deleted@);
    entry_summary(now, c.len(), m.len(), x.len(), d.truncated, user) + "\n### Files Changed\n"@
        + changed_file_lines("created"@, c) + changed_file_lines("modified"@, m) + changed_file_lines("deleted"@, x)
        + "\n### Diff\n"@
}

/// The Markdown entry the change log gets for a turn at `now`.
pub open spec fn log_entry_spec(now: u64, before: ChangeSnapshot, after: ChangeSnapshot, d: ChangeDiff, user: Seq<char>) -> Seq<char> {
    let head = entry_head(now, d, user);
    let paths = strings_view(d.created@) + strings_view(d.modified@) + strings_view(d.deleted@);
    head + diff_section(
        (MAX_LOG_ENTRY_CHARS - min_nat(utf8_len(head), MAX_LOG_ENTRY_CHARS as nat)) as nat,
        paths,
        before.map(),
        after.map(),
    )
}

pub open spec fn entry_counts(now: u64, created: nat, modified: nat, deleted: nat) -> Seq<char> {
    "\n## Turn "@ + decimal(now as nat) + "\n\n### Summary\n- Changed "@ + decimal(created + modified + deleted)
        + " file(s): "@ + decimal(created) + " created, "@ + decimal(modified) + " modified, "@ + decimal(deleted)
        + " deleted.\n"@
}

pub open spec fn entry_request(user: Seq<char>) -> Seq<char> {
    "- User request: "@ + truncate_dots(replace_all(scrub_spec(user), "\n"@, " "@), 240) + "\n"@
}

fn push_counts(out: &mut Vec<char>, now: u64, c: u128, m: u128, x: u128)
    requires
        c + m + x <= u128::MAX,
    ensures
        final(out)@ == old(out)@ + entry_counts(now, c as nat, m as nat, x as nat),
{
    extend_str(out, "\n## Turn ");
    let t = decimal_string(now);
    extend_chars(out, t.as_slice());
    extend_str(out, "\n\n### Summary\n- Changed ");
    let all = crate::text::decimal_string_u128(c + m + x);
    extend_chars(out, all.as_slice());
    extend_str(out, " file(s): ");
    let cd = crate::text::decimal_string_u128(c);
    extend_chars(out, cd.as_slice());
    extend_str(out, " created, ");
    let md = crate::text::decimal_string_u128(m);
    extend_chars(out, md.as_slice());
    extend_str(out, " modified, ");
    let xd = crate::text::decimal_string_u128(x);
    extend_chars(out, xd.as_slice());
    extend_str(out, " deleted.\n");
}

fn push_request(out: &mut Vec<char>, user: &str)
    ensures
        final(out)@ == old(out)@ + entry_request(user@),
{
    extend_str(out, "- User request: ");
    let scrubbed = redact_text(user);
    let sc = chars_of(scrubbed.as_str());
    proof {
        reveal_strlit("\n");
    }
    let flat = crate::text::replace_chars(sc.as_slice(), "\n", " ");
    let cut = crate::text::truncate_with_dots(flat.as_slice(), 240);
    extend_chars(out, cut.as_slice());
    extend_str(out, "\n");
}

fn push_summary(out: &mut Vec<char>, now: u64, d: &ChangeDiff, user: &str)
    ensures
        final(out)@ == old(out)@ + entry_summary(now, d.created@.len(), d.modified@.len(), d.deleted@.len(), d.truncated, user@),
{
    let ghost start = out@;
    push_counts(out, now, d.created.len() as u128, d.modified.len() as u128, d.deleted.len() as u128);
    push_request(out, user);
    if d.truncated {
        extend_str(out, "- Snapshot was truncated; some changes may be omitted.\n");
    }
    assert(out@ =~= start + entry_summary(now, d.created@.len(), d.modified@.len(), d.deleted@.len(), d.truncated, user@));
}

/// Append the diff section for `paths` with `left` bytes of room.
fn push_diffs(out: &mut Vec<char>, room: usize, paths: &Vec<String>, before: &ChangeSnapshot, after: &ChangeSnapshot)
    requires
        room <= MAX_LOG_ENTRY_CHARS,
    ensures
        final(out)@ == old(out)@ + diff_section(room as nat, strings_view(paths@), before.map(), after.map()),
{
    let ghost all = strings_view(paths@);
    let ghost start = out@;
    let mut left = room;
    let mut i: usize = 0;
    assert(all.skip(0) =~= all);
    while i < paths.len()
        invariant
            i <= paths@.len(),
            all == strings_view(paths@),
            start == old(out)@,
            left <= MAX_LOG_ENTRY_CHARS,
            out@ + diff_section(left as nat, all.skip(i as int), before.map(), after.map())
                == start + diff_section(room as nat, all, before.map(), after.map()),
        decreases paths@.len() - i,
    {
        let ghost rest = all.skip(i as int);
        assert(rest[0] == paths@[i as int]@);
        assert(rest.drop_first() =~= all.skip(i + 1));
        assert(rest.len() > 0);
        if left == 0 {
            assert(diff_section(left as nat, rest, before.map(), after.map()) == "\n(diff truncated)\n"@);
            extend_str(out, "\n(diff truncated)\n");
            assert(out@ =~= start + diff_section(room as nat, all, before.map(), after.map()));
            return;
        }
        let fd = render_file_diff(before, after, paths[i].as_str());
        let fc = chars_of(fd.as_str());
        let cap: usize = if left < MAX_LOG_FILE_DIFF_CHARS { left } else { MAX_LOG_FILE_DIFF_CHARS };
        let t = crate::text::truncate_with_dots(fc.as_slice(), cap);
        proof {
            crate::text::lemma_utf8_len_bound(t@);
        }
        let tl = crate::text::utf8_len_up_to(t.as_slice(), MAX_LOG_ENTRY_CHARS);
        assert(tl == utf8_len(t@));
        let ghost before_out = out@;
        extend_chars(out, t.as_slice());
        if crate::text::utf8_len_at_least(fc.as_slice(), tl + 1) {
            extend_str(out, "\n(file diff truncated)\n");
            assert(out@ =~= before_out + t@ + "\n(file diff truncated)\n"@);
            left = 0;
        } else {
            let used = if tl < left { tl } else { left };
            left = left - used;
        }
        i += 1;
    }
    assert(all.skip(i as int) =~= Seq::<Seq<char>>::empty());
}

proof fn lemma_strings_view_push(v: Seq<String>, x: String)
    ensures
        strings_view(v.push(x)) == strings_view(v).push(x@),
{
    assert(strings_view(v.push(x)) =~= strings_view(v).push(x@));
}

/// The Markdown entry written to the change log after a turn at `now` that
/// changed files, for the user's request `user` (redacted, on one line, cut
/// to 240 characters): a summary, the changed files by kind, then the diffs
/// while room lasts.
pub fn render_log_entry(now: u64, before: &ChangeSnapshot, after: &ChangeSnapshot, diff: &ChangeDiff, user: &str) -> (out: String)
    ensures
        out@ == log_entry_spec(now, *before, *after, *diff, user@),
{
    let mut v: Vec<char> = Vec::new();
    push_summary(&mut v, now, diff, user);
    extend_str(&mut v, "\n### Files Changed\n");
    push_changed_files(&mut v, "created", diff.created.as_slice());
    push_changed_files(&mut v, "modified", diff.modified.as_slice());
    push_changed_files(&mut v, "deleted", diff.deleted.as_slice());
    extend_str(&mut v, "\n### Diff\n");
    assert(v@ =~= entry_head(now, *diff, user@));
    let used = crate::text::utf8_len_up_to(v.as_slice(), MAX_LOG_ENTRY_CHARS);
    let mut paths: Vec<String> = Vec::new();
    let mut k: usize = 0;
    while k < diff.created.len()
        invariant
            k <= diff.created@.len(),
            strings_view(paths@) == strings_view(diff.created@.take(k as int)),
        decreases diff.created@.len() - k,
    {
        let ghost p0 = paths@;
        paths.push(diff.created[k].clone());
        proof {
            lemma_strings_view_push(p0, diff.created@[k as int]);
            lemma_strings_view_push(diff.created@.take(k as int), diff.created@[k as int]);
            assert(diff.created@.take(k as int).push(diff.created@[k as int]) =~= diff.created@.take(k + 1));
        }
        k += 1;
    }
    assert(diff.created@.take(k as int) =~= diff.created@);
    let ghost c = strings_view(paths@);
    let mut k: usize = 0;
    while k < diff.modified.len()
        invariant
            k <= diff.modified@.len(),
            strings_view(paths@) == c + strings_view(diff.modified@.take(k as int)),
        decreases diff.modified@.len() - k,
    {
        let ghost p0 = paths@;
        paths.push(diff.modified[k].clone());
        proof {
            lemma_strings_view_push(p0, diff.modified@[k as int]);
            lemma_strings_view_push(diff.modified@.take(k as int), diff.modified@[k as int]);
            assert(diff.modified@.take(k as int).push(diff.modified@[k as int]) =~= diff.modified@.take(k + 1));
            assert(strings_view(paths@) =~= c + strings_view(diff.modified@.take(k + 1)));
        }
        k += 1;
    }
    assert(diff.modified@.take(k as int) =~= diff.modified@);
    let ghost cm = strings_view(paths@);
    let mut k: usize = 0;
    while k < diff.deleted.len()
        invariant
            k <= diff.deleted@.len(),
            strings_view(paths@) == cm + strings_view(diff.deleted@.take(k as int)),
        decreases diff.deleted@.len() - k,
    {
        let ghost p0 = paths@;
        paths.push(diff.deleted[k].clone());
        proof {
            lemma_strings_view_push(p0, diff.deleted@[k as int]);
            lemma_strings_view_push(diff.deleted@.take(k as int), diff.deleted@[k as int]);
            assert(diff.deleted@.take(k as int).push(diff.deleted@[k as int]) =~= diff.deleted@.take(k + 1));
            assert(strings_view(paths@) =~= cm + strings_view(diff.deleted@.take(k + 1)));
        }
        k += 1;
    }
    assert(diff.deleted@.take(k as int) =~= diff.deleted@);
    push_diffs(&mut v, MAX_LOG_ENTRY_CHARS - used, &paths, before, after);
    string_of(v.as_slice())
}

/// A change log file holds at most this many lines.
pub const MAX_LOG_LINES: usize = 2000;

/// Whether an entry of `entry_lines` lines is appended to a log file that
/// has `lines` lines (a file holding no more than its `header_lines`-line
/// header always takes it); otherwise the next log file is tried.
pub fn log_has_room(lines: usize, entry_lines: usize, header_lines: usize) -> (b: bool)
    ensures
        b == (lines + entry_lines <= MAX_LOG_LINES || lines <= header_lines),
{
    (lines <= MAX_LOG_LINES && entry_lines <= MAX_LOG_LINES - lines) || lines <= header_lines
}

/// The entry the change log gets after a turn, if any: none under a privacy
/// mode other than normal (nothing of the turn is written), and none when no
/// file changed.
pub fn change_log_entry(
    privacy: PrivacyMode,
    now: u64,
    before: &ChangeSnapshot,
    after: &ChangeSnapshot,
    user: &str,
) -> (r: Option<String>)
    ensures
        privacy != PrivacyMode::Normal ==> r is None,
        privacy == PrivacyMode::Normal ==> (exists|d: ChangeDiff| #![auto] change_diff_matches(d, *before, *after) && match r {
            None => d.created@.len() == 0 && d.modified@.len() == 0 && d.deleted@.len() == 0,
            Some(e) => !(d.created@.len() == 0 && d.modified@.len() == 0 && d.deleted@.len() == 0)
                && e@ == log_entry_spec(now, *before, *after, d, user@),
        }),
{
    if privacy != PrivacyMode::Normal {
        return None;
    }
    let d = before.diff(after);
    if d.is_empty() {
        assert(change_diff_matches(d, *before, *after));
        return None;
    }
    let e = render_log_entry(now, before, after, &d, user);
    assert(change_diff_matches(d, *before, *after));
    Some(e)
}

} // verus!
