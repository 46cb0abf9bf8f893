//! Test contracts: the checklist of things to verify for a change set, its
//! display and Markdown forms, recording results, and the extraction of the
//! changed-file list and of a JSON object from text.
use vstd::prelude::*;
use vstd::string::StrSliceExecFns;
use crate::text::{
    boundary_from, char_index_at_byte, utf8_len, utf8_len_at_least, chars_of, decimal, decimal_string, eq_ignore_ascii_case, eq_ignore_case, extend_chars,
    extend_str, find_sub, find_sub_exec, join, join_parts, rfind_sub, rfind_sub_exec, slice_chars,
    starts_with_str, string_of, trim, trim_chars, trim_end_index, trim_start_index, views,
    truncate_dots, truncate_with_dots, trim_str, to_lowercase, unicode_lowercase, chars_eq_str,
};
use crate::markdown::{lines, split_lines};
use crate::goals::{first_present, first_present_exec};
use crate::json::{as_array, as_str, get, get_str, json_parse, lemma_trees_of, parse_json, str_member, trees_of, Json, JsonTree};

verus! {

broadcast use vstd::string::group_string_axioms;

/// A changed file plus a short summary of the change.
pub struct ChangedItem {
    pub file: String,
    pub summary: String,
}

/// One checklist entry: a scenario to exercise and the expected outcome.
pub struct ChecklistItem {
    pub id: String,
    pub scenario: String,
    pub expect: String,
    /// One of "pending" | "pass" | "fail".
    pub status: String,
    pub note: String,
}

/// A checklist of things to test for the current change set.
pub struct TestContract {
    /// UNIX seconds, as a decimal string, when this contract was generated.
    pub generated_at: String,
    pub changed: Vec<ChangedItem>,
    pub surfaces: Vec<String>,
    pub checklist: Vec<ChecklistItem>,
}

pub open spec fn is_pass(s: Seq<char>) -> bool {
    eq_ignore_ascii_case(s, "pass"@)
}

pub open spec fn is_fail(s: Seq<char>) -> bool {
    eq_ignore_ascii_case(s, "fail"@)
}

pub open spec fn count_pass(items: Seq<ChecklistItem>) -> nat
    decreases items.len(),
{
    if items.len() == 0 {
        0
    } else {
        count_pass(items.drop_last()) + if is_pass(items.last().status@) { 1nat } else { 0nat }
    }
}

pub open spec fn count_fail(items: Seq<ChecklistItem>) -> nat
    decreases items.len(),
{
    if items.len() == 0 {
        0
    } else {
        count_fail(items.drop_last()) + if !is_pass(items.last().status@) && is_fail(
            items.last().status@,
        ) {
            1nat
        } else {
            0nat
        }
    }
}

pub open spec fn count_pending(items: Seq<ChecklistItem>) -> nat
    decreases items.len(),
{
    if items.len() == 0 {
        0
    } else {
        count_pending(items.drop_last()) + if !is_pass(items.last().status@) && !is_fail(
            items.last().status@,
        ) {
            1nat
        } else {
            0nat
        }
    }
}

/// Every item is counted exactly once.
pub proof fn law_counts_partition_checklist(items: Seq<ChecklistItem>)
    ensures
        count_pass(items) + count_fail(items) + count_pending(items) == items.len(),
    decreases items.len(),
{
    if items.len() > 0 {
        law_counts_partition_checklist(items.drop_last());
    }
}

/// `✓` for pass, `✗` for fail, `•` otherwise.
pub open spec fn mark(status: Seq<char>) -> char {
    if is_pass(status) { '✓' } else if is_fail(status) { '✗' } else { '•' }
}

pub open spec fn item_line(it: ChecklistItem) -> Seq<char> {
    seq!['\n', mark(it.status@)] + " ["@ + it.id@ + "] "@ + it.scenario@ + " → "@ + it.expect@ + (
    if it.note@.len() == 0 { Seq::empty() } else { " ("@ + it.note@ + ")"@ })
}

pub open spec fn item_lines(items: Seq<ChecklistItem>) -> Seq<char>
    decreases items.len(),
{
    if items.len() == 0 {
        Seq::empty()
    } else {
        item_lines(items.drop_last()) + item_line(items.last())
    }
}

pub open spec fn string_views(v: Seq<String>) -> Seq<Seq<char>> {
    v.map_values(|s: String| s@)
}

/// The display of a contract: a counts header, the surfaces, then one line
/// per checklist item.
pub open spec fn render_spec(c: TestContract) -> Seq<char> {
    let items = c.checklist@;
    "test contract ("@ + decimal(items.len()) + " item(s): "@ + decimal(count_pass(items))
        + " pass, "@ + decimal(count_fail(items)) + " fail, "@ + decimal(count_pending(items))
        + " pending)"@ + (if c.surfaces@.len() == 0 {
        Seq::empty()
    } else {
        "\nsurfaces: "@ + join(string_views(c.surfaces@), ", "@)
    }) + item_lines(items)
}

pub open spec fn md_surfaces(s: Seq<String>) -> Seq<char>
    decreases s.len(),
{
    if s.len() == 0 { Seq::empty() } else { md_surfaces(s.drop_last()) + "- "@ + s.last()@ + "\n"@ }
}

pub open spec fn md_changed(c: Seq<ChangedItem>) -> Seq<char>
    decreases c.len(),
{
    if c.len() == 0 {
        Seq::empty()
    } else {
        md_changed(c.drop_last()) + if c.last().summary@.len() == 0 {
            "- `"@ + c.last().file@ + "`\n"@
        } else {
            "- `"@ + c.last().file@ + "` — "@ + c.last().summary@ + "\n"@
        }
    }
}

pub open spec fn md_item(it: ChecklistItem) -> Seq<char> {
    "- ["@ + (if is_pass(it.status@) { "x"@ } else { " "@ }) + "] **"@ + it.id@ + "** — "@
        + it.scenario@ + "\n  - Expect: "@ + it.expect@ + "\n"@ + (if is_fail(it.status@) {
        "  - Status: FAIL\n"@
    } else {
        Seq::empty()
    }) + (if it.note@.len() == 0 { Seq::empty() } else { "  - Note: "@ + it.note@ + "\n"@ })
}

pub open spec fn md_items(items: Seq<ChecklistItem>) -> Seq<char>
    decreases items.len(),
{
    if items.len() == 0 { Seq::empty() } else { md_items(items.drop_last()) + md_item(items.last()) }
}

/// The Markdown form: a GitHub-style checkbox per item.
pub open spec fn markdown_spec(c: TestContract) -> Seq<char> {
    let items = c.checklist@;
    "# Test Contract\n\n"@ + "Generated at: "@ + c.generated_at@ + "\n\n"@ + "Summary: "@ + decimal(
        items.len(),
    ) + " item(s) — "@ + decimal(count_pass(items)) + " pass, "@ + decimal(count_fail(items))
        + " fail, "@ + decimal(count_pending(items)) + " pending\n\n"@ + (if c.surfaces@.len() == 0 {
        Seq::empty()
    } else {
        "## Surfaces\n\n"@ + md_surfaces(c.surfaces@) + "\n"@
    }) + "## Changed\n\n"@ + (if c.changed@.len() == 0 {
        "- (no changes detected)\n"@
    } else {
        md_changed(c.changed@)
    }) + "\n"@ + "## Checklist\n\n"@ + (if items.len() == 0 {
        "_(no checklist items)_\n"@
    } else {
        md_items(items)
    })
}

fn status_mark(status: &str) -> (c: char)
    ensures
        c == mark(status@),
{
    let s = chars_of(status);
    if eq_ignore_case(s.as_slice(), "pass") {
        '✓'
    } else if eq_ignore_case(s.as_slice(), "fail") {
        '✗'
    } else {
        '•'
    }
}

fn push_item_line(v: &mut Vec<char>, item: &ChecklistItem)
    ensures
        final(v)@ == old(v)@ + item_line(*item),
{
    let ghost before = v@;
    v.push('\n');
    v.push(status_mark(item.status.as_str()));
    assert(v@ =~= before + seq!['\n', mark(item.status@)]);
    extend_str(v, " [");
    extend_str(v, item.id.as_str());
    extend_str(v, "] ");
    extend_str(v, item.scenario.as_str());
    extend_str(v, " → ");
    extend_str(v, item.expect.as_str());
    let ghost mid = v@;
    if item.note.as_str().unicode_len() != 0 {
        extend_str(v, " (");
        extend_str(v, item.note.as_str());
        extend_str(v, ")");
    } else {
        assert(v@ =~= mid + Seq::<char>::empty());
    }
    assert(v@ =~= before + item_line(*item));
}

fn push_md_item(v: &mut Vec<char>, it: &ChecklistItem)
    ensures
        final(v)@ == old(v)@ + md_item(*it),
{
    let ghost before = v@;
    let st = chars_of(it.status.as_str());
    extend_str(v, "- [");
    if eq_ignore_case(st.as_slice(), "pass") {
        extend_str(v, "x");
    } else {
        extend_str(v, " ");
    }
    extend_str(v, "] **");
    extend_str(v, it.id.as_str());
    extend_str(v, "** — ");
    extend_str(v, it.scenario.as_str());
    extend_str(v, "\n  - Expect: ");
    extend_str(v, it.expect.as_str());
    extend_str(v, "\n");
    let ghost mid = v@;
    if eq_ignore_case(st.as_slice(), "fail") {
        extend_str(v, "  - Status: FAIL\n");
    } else {
        assert(v@ =~= mid + Seq::<char>::empty());
    }
    let ghost mid2 = v@;
    if it.note.as_str().unicode_len() != 0 {
        extend_str(v, "  - Note: ");
        extend_str(v, it.note.as_str());
        extend_str(v, "\n");
    } else {
        assert(v@ =~= mid2 + Seq::<char>::empty());
    }
    assert(v@ =~= before + md_item(*it));
}

impl TestContract {
    /// Pass, fail and pending counts of the checklist.
    pub fn counts(&self) -> (r: (usize, usize, usize))
        ensures
            r.0 == count_pass(self.checklist@),
            r.1 == count_fail(self.checklist@),
            r.2 == count_pending(self.checklist@),
    {
        let mut pass: usize = 0;
        let mut fail: usize = 0;
        let mut pending: usize = 0;
        let mut i: usize = 0;
        while i < self.checklist.len()
            invariant
                i <= self.checklist@.len(),
                pass == count_pass(self.checklist@.take(i as int)),
                fail == count_fail(self.checklist@.take(i as int)),
                pending == count_pending(self.checklist@.take(i as int)),
                pass + fail + pending == i,
            decreases self.checklist@.len() - i,
        {
            let s = chars_of(self.checklist[i].status.as_str());
            proof {
                let t = self.checklist@.take(i + 1);
                assert(t.drop_last() =~= self.checklist@.take(i as int));
            }
            if eq_ignore_case(s.as_slice(), "pass") {
                pass += 1;
            } else if eq_ignore_case(s.as_slice(), "fail") {
                fail += 1;
            } else {
                pending += 1;
            }
            i += 1;
        }
        assert(self.checklist@.take(i as int) =~= self.checklist@);
        (pass, fail, pending)
    }

    /// A concise display: a counts header followed by per-item ✓/✗/• lines.
    pub fn render(&self) -> (out: String)
        ensures
            out@ == render_spec(*self),
    {
        let (pass, fail, pending) = self.counts();
        let mut v = chars_of("test contract (");
        let d = decimal_string(self.checklist.len() as u64);
        extend_chars(&mut v, d.as_slice());
        extend_str(&mut v, " item(s): ");
        let d = decimal_string(pass as u64);
        extend_chars(&mut v, d.as_slice());
        extend_str(&mut v, " pass, ");
        let d = decimal_string(fail as u64);
        extend_chars(&mut v, d.as_slice());
        extend_str(&mut v, " fail, ");
        let d = decimal_string(pending as u64);
        extend_chars(&mut v, d.as_slice());
        extend_str(&mut v, " pending)");
        if self.surfaces.len() != 0 {
            extend_str(&mut v, "\nsurfaces: ");
            let mut parts: Vec<Vec<char>> = Vec::new();
            let mut k: usize = 0;
            while k < self.surfaces.len()
                invariant
                    k <= self.surfaces@.len(),
                    parts@.len() == k,
                    forall|j: int| 0 <= j < k ==> (#[trigger] parts@[j])@ == self.surfaces@[j]@,
                decreases self.surfaces@.len() - k,
            {
                parts.push(chars_of(self.surfaces[k].as_str()));
                k += 1;
            }
            assert(views(parts@) =~= string_views(self.surfaces@));
            let j = join_parts(&parts, ", ");
            extend_chars(&mut v, j.as_slice());
        }
        let ghost head = v@;
        let mut i: usize = 0;
        while i < self.checklist.len()
            invariant
                i <= self.checklist@.len(),
                v@ == head + item_lines(self.checklist@.take(i as int)),
            decreases self.checklist@.len() - i,
        {
            push_item_line(&mut v, &self.checklist[i]);
            assert(self.checklist@.take(i + 1).drop_last() =~= self.checklist@.take(i as int));
            i += 1;
        }
        assert(self.checklist@.take(i as int) =~= self.checklist@);
        string_of(v.as_slice())
    }

    /// Pretty Markdown with a GitHub-style checkbox per item.
    pub fn markdown(&self) -> (out: String)
        ensures
            out@ == markdown_spec(*self),
    {
        let (pass, fail, pending) = self.counts();
        let mut v = chars_of("# Test Contract\n\n");
        extend_str(&mut v, "Generated at: ");
        extend_str(&mut v, self.generated_at.as_str());
        extend_str(&mut v, "\n\n");
        extend_str(&mut v, "Summary: ");
        let d = decimal_string(self.checklist.len() as u64);
        extend_chars(&mut v, d.as_slice());
        extend_str(&mut v, " item(s) — ");
        let d = decimal_string(pass as u64);
        extend_chars(&mut v, d.as_slice());
        extend_str(&mut v, " pass, ");
        let d = decimal_string(fail as u64);
        extend_chars(&mut v, d.as_slice());
        extend_str(&mut v, " fail, ");
        let d = decimal_string(pending as u64);
        extend_chars(&mut v, d.as_slice());
        extend_str(&mut v, " pending\n\n");
        let ghost h1 = v@;
        if self.surfaces.len() != 0 {
            extend_str(&mut v, "## Surfaces\n\n");
            let ghost h = v@;
            let mut k: usize = 0;
            while k < self.surfaces.len()
                invariant
                    k <= self.surfaces@.len(),
                    v@ == h + md_surfaces(self.surfaces@.take(k as int)),
                decreases self.surfaces@.len() - k,
            {
                extend_str(&mut v, "- ");
                extend_str(&mut v, self.surfaces[k].as_str());
                extend_str(&mut v, "\n");
                assert(self.surfaces@.take(k + 1).drop_last() =~= self.surfaces@.take(k as int));
                k += 1;
            }
            assert(self.surfaces@.take(k as int) =~= self.surfaces@);
            extend_str(&mut v, "\n");
        } else {
            assert(v@ =~= h1 + Seq::<char>::empty());
        }
        extend_str(&mut v, "## Changed\n\n");
        if self.changed.len() == 0 {
            extend_str(&mut v, "- (no changes detected)\n");
        } else {
            let ghost h = v@;
            let mut k: usize = 0;
            while k < self.changed.len()
                invariant
                    k <= self.changed@.len(),
                    v@ == h + md_changed(self.changed@.take(k as int)),
                decreases self.changed@.len() - k,
            {
                let it = &self.changed[k];
                extend_str(&mut v, "- `");
                extend_str(&mut v, it.file.as_str());
                if it.summary.as_str().unicode_len() == 0 {
                    extend_str(&mut v, "`\n");
                } else {
                    extend_str(&mut v, "` — ");
                    extend_str(&mut v, it.summary.as_str());
                    extend_str(&mut v, "\n");
                }
                assert(self.changed@.take(k + 1).drop_last() =~= self.changed@.take(k as int));
                k += 1;
            }
            assert(self.changed@.take(k as int) =~= self.changed@);
        }
        extend_str(&mut v, "\n");
        extend_str(&mut v, "## Checklist\n\n");
        if self.checklist.len() == 0 {
            extend_str(&mut v, "_(no checklist items)_\n");
        } else {
            let ghost h = v@;
            let mut k: usize = 0;
            while k < self.checklist.len()
                invariant
                    k <= self.checklist@.len(),
                    v@ == h + md_items(self.checklist@.take(k as int)),
                decreases self.checklist@.len() - k,
            {
                push_md_item(&mut v, &self.checklist[k]);
                assert(self.checklist@.take(k + 1).drop_last() =~= self.checklist@.take(k as int));
                k += 1;
            }
            assert(self.checklist@.take(k as int) =~= self.checklist@);
        }
        string_of(v.as_slice())
    }
}

/// Index of the first checklist item whose id matches `id` ignoring ASCII
/// case, or -1.
pub open spec fn find_item(items: Seq<ChecklistItem>, id: Seq<char>) -> int
    decreases items.len(),
{
    if items.len() == 0 {
        -1
    } else if find_item(items.drop_last(), id) >= 0 {
        find_item(items.drop_last(), id)
    } else if eq_ignore_ascii_case(items.last().id@, id) {
        items.len() - 1
    } else {
        -1
    }
}

/// Flip the item whose id matches `id` (ignoring ASCII case) to "pass" or
/// "fail" and record `note`; an error when no item has that id.
pub fn record_result(contract: &mut TestContract, id: &str, pass: bool, note: &str) -> (r: Result<(), String>)
    ensures
        find_item(old(contract).checklist@, id@) == -1 ==> r is Err && final(contract).checklist@ == old(contract).checklist@,
        r is Err ==> find_item(old(contract).checklist@, id@) == -1,
        match r {
            Err(e) => e@ == "unknown checklist id: "@ + id@,
            Ok(()) => {
                let k = find_item(old(contract).checklist@, id@);
                &&& 0 <= k < old(contract).checklist@.len()
                &&& final(contract).checklist@.len() == old(contract).checklist@.len()
                &&& forall|j: int| 0 <= j < final(contract).checklist@.len() && j != k ==> final(contract).checklist@[j] == old(contract).checklist@[j]
                &&& final(contract).checklist@[k].status@ == (if pass { "pass"@ } else { "fail"@ })
                &&& final(contract).checklist@[k].note@ == note@
                &&& final(contract).checklist@[k].id == old(contract).checklist@[k].id
                &&& final(contract).checklist@[k].scenario == old(contract).checklist@[k].scenario
                &&& final(contract).checklist@[k].expect == old(contract).checklist@[k].expect
            },
        },
        final(contract).generated_at == old(contract).generated_at,
        final(contract).changed@ == old(contract).changed@,
        final(contract).surfaces@ == old(contract).surfaces@,
{
    let idc = chars_of(id);
    let mut i: usize = 0;
    while i < contract.checklist.len()
        invariant
            i <= contract.checklist@.len(),
            contract.checklist@ == old(contract).checklist@,
            contract.generated_at == old(contract).generated_at,
            contract.changed@ == old(contract).changed@,
            contract.surfaces@ == old(contract).surfaces@,
            find_item(contract.checklist@.take(i as int), id@) == -1,
            idc@ == id@,
        decreases contract.checklist@.len() - i,
    {
        let c = chars_of(contract.checklist[i].id.as_str());
        assert(contract.checklist@.take(i + 1).drop_last() =~= contract.checklist@.take(i as int));
        if eq_ignore_case_chars(c.as_slice(), idc.as_slice()) {
            proof {
                lemma_find_item_prefix(contract.checklist@, id@, i as int);
            }
            let status = if pass { String::from_str("pass") } else { String::from_str("fail") };
            let old_item = contract.checklist.remove(i);
            let item = ChecklistItem {
                id: old_item.id,
                scenario: old_item.scenario,
                expect: old_item.expect,
                status,
                note: String::from_str(note),
            };
            contract.checklist.insert(i, item);
            return Ok(());
        }
        i += 1;
    }
    assert(contract.checklist@.take(i as int) =~= contract.checklist@);
    let mut v = chars_of("unknown checklist id: ");
    extend_str(&mut v, id);
    Err(string_of(v.as_slice()))
}

proof fn lemma_find_item_prefix(items: Seq<ChecklistItem>, id: Seq<char>, i: int)
    requires
        0 <= i < items.len(),
        find_item(items.take(i), id) == -1,
        eq_ignore_ascii_case(items[i].id@, id),
    ensures
        find_item(items, id) == i,
    decreases items.len(),
{
    if i < items.len() - 1 {
        assert(items.drop_last().take(i) =~= items.take(i));
        lemma_find_item_prefix(items.drop_last(), id, i);
    } else {
        assert(items.drop_last() =~= items.take(i));
    }
}

fn eq_ignore_case_chars(a: &[char], b: &[char]) -> (r: bool)
    ensures
        r == eq_ignore_ascii_case(a@, b@),
{
    let bs = string_of(b);
    eq_ignore_case(a, bs.as_str())
}

// ---------------------------------------------------------------------------
// Extracting text
// ---------------------------------------------------------------------------

/// `raw` trimmed, and with a surrounding Markdown code fence (```json … ```)
/// removed when there is one.
pub open spec fn strip_fences_spec(raw: Seq<char>) -> Seq<char> {
    let t = trim(raw);
    if !"```"@.is_prefix_of(t) {
        t
    } else {
        let rest = t.skip("```"@.len() as int);
        let p = find_sub(rest, seq!['\n'], 0);
        let body = if p >= 0 { rest.skip(p + 1) } else { rest };
        let q = rfind_sub(body, "```"@);
        if q >= 0 { trim(body.take(q)) } else { trim(body) }
    }
}

/// The character range of `trim(v)` within `v`.
fn trim_range(v: &[char]) -> (r: (usize, usize))
    ensures
        r.0 <= r.1 <= v@.len(),
        v@.subrange(r.0 as int, r.1 as int) == trim(v@),
{
    let a = trim_start_index(v);
    let rest = slice_chars(v, a, v.len());
    assert(rest@ =~= v@.skip(a as int));
    let b = trim_end_index(rest.as_slice());
    assert(v@.subrange(a as int, (a + b) as int) =~= rest@.take(b as int));
    (a, a + b)
}

/// Strip a single leading/trailing Markdown code fence, if any.
pub fn strip_fences(raw: &str) -> (out: &str)
    ensures
        out@ == strip_fences_spec(raw@),
{
    let v = chars_of(raw);
    let (a, b) = trim_range(v.as_slice());
    let t = slice_chars(v.as_slice(), a, b);
    if !starts_with_str(t.as_slice(), "```") {
        return raw.substring_char(a, b);
    }
    let fence = chars_of("```");
    let s = a + fence.len();
    let rest = slice_chars(v.as_slice(), s, b);
    assert(rest@ =~= t@.skip("```"@.len() as int));
    let nl: Vec<char> = vec!['\n'];
    assert(nl@ =~= seq!['\n']);
    let body_start = match find_sub_exec(rest.as_slice(), nl.as_slice(), 0) {
        Some(p) => s + p + 1,
        None => s,
    };
    let body = slice_chars(v.as_slice(), body_start, b);
    proof {
        let p = find_sub(rest@, seq!['\n'], 0);
        if p >= 0 {
            assert(body@ =~= rest@.skip(p + 1));
        } else {
            assert(body@ =~= rest@);
        }
    }
    let end = match rfind_sub_exec(body.as_slice(), fence.as_slice()) {
        Some(q) => body_start + q,
        None => b,
    };
    let inner = slice_chars(v.as_slice(), body_start, end);
    proof {
        let q = rfind_sub(body@, "```"@);
        if q >= 0 {
            assert(inner@ =~= body@.take(q));
        } else {
            assert(inner@ =~= body@);
        }
    }
    let (x, y) = trim_range(inner.as_slice());
    assert(v@.subrange((body_start + x) as int, (body_start + y) as int) =~= inner@.subrange(x as int, y as int));
    raw.substring_char(body_start + x, body_start + y)
}

/// Scan from `i` for the end of a balanced `{…}` object, with `depth` open
/// braces, inside a JSON string or not, and after a backslash or not. Braces
/// inside strings (and escaped quotes) are ignored. -1 when it never closes.
pub open spec fn scan_object(t: Seq<char>, i: int, depth: int, in_str: bool, esc: bool) -> int
    decreases t.len() - i,
{
    if i >= t.len() || i < 0 {
        -1
    } else {
        let b = t[i];
        if in_str {
            if esc {
                scan_object(t, i + 1, depth, true, false)
            } else if b == '\\' {
                scan_object(t, i + 1, depth, true, true)
            } else if b == '"' {
                scan_object(t, i + 1, depth, false, false)
            } else {
                scan_object(t, i + 1, depth, true, false)
            }
        } else if b == '"' {
            scan_object(t, i + 1, depth, true, false)
        } else if b == '{' {
            scan_object(t, i + 1, depth + 1, false, false)
        } else if b == '}' {
            if depth - 1 == 0 { i } else { scan_object(t, i + 1, depth - 1, false, false) }
        } else {
            scan_object(t, i + 1, depth, false, false)
        }
    }
}

/// The first balanced `{…}` object of `t`, if any.
pub open spec fn first_object_spec(t: Seq<char>) -> Option<Seq<char>> {
    let s = find_sub(t, seq!['{'], 0);
    if s < 0 {
        None
    } else {
        let e = scan_object(t, s, 0, false, false);
        if e < 0 { None } else { Some(t.subrange(s, e + 1)) }
    }
}

proof fn lemma_scan_range(t: Seq<char>, i: int, depth: int, in_str: bool, esc: bool)
    ensures
        scan_object(t, i, depth, in_str, esc) == -1 || (i <= scan_object(t, i, depth, in_str, esc) < t.len()),
    decreases t.len() - i,
{
    if !(i >= t.len() || i < 0) {
        let b = t[i];
        if in_str {
            if esc {
                lemma_scan_range(t, i + 1, depth, true, false);
            } else if b == '\\' {
                lemma_scan_range(t, i + 1, depth, true, true);
            } else if b == '"' {
                lemma_scan_range(t, i + 1, depth, false, false);
            } else {
                lemma_scan_range(t, i + 1, depth, true, false);
            }
        } else if b == '"' {
            lemma_scan_range(t, i + 1, depth, true, false);
        } else if b == '{' {
            lemma_scan_range(t, i + 1, depth + 1, false, false);
        } else if b == '}' {
            if depth - 1 != 0 {
                lemma_scan_range(t, i + 1, depth - 1, false, false);
            }
        } else {
            lemma_scan_range(t, i + 1, depth, false, false);
        }
    }
}

/// Find the first string-aware balanced `{...}` substring.
pub fn first_balanced_object(text: &str) -> (out: Option<&str>)
    ensures
        match out {
            Some(s) => first_object_spec(text@) == Some(s@),
            None => first_object_spec(text@) is None,
        },
{
    let t = chars_of(text);
    let open: Vec<char> = vec!['{'];
    assert(open@ =~= seq!['{']);
    let start = match find_sub_exec(t.as_slice(), open.as_slice(), 0) {
        Some(s) => s,
        None => return None,
    };
    let mut depth: usize = 0;
    let mut in_string = false;
    let mut escaped = false;
    let mut i = start;
    proof {
        lemma_scan_range(t@, start as int, 0, false, false);
        crate::text::lemma_find_sub_range(t@, seq!['{'], 0);
        assert(t@.subrange(start as int, start + 1)[0] == t@[start as int]);
    }
    while i < t.len()
        invariant
            start <= i <= t@.len(),
            start < t@.len(),
            t@ == text@,
            find_sub(t@, seq!['{'], 0) == start,
            escaped ==> in_string,
            t@[start as int] == '{',
            i > start ==> depth >= 1,
            i == start ==> depth == 0 && !in_string && !escaped,
            depth <= i - start,
            scan_object(t@, start as int, 0, false, false) == scan_object(t@, i as int, depth as int, in_string, escaped),
        decreases t@.len() - i,
    {
        let b = t[i];
        if in_string {
            if escaped {
                escaped = false;
            } else if b == '\\' {
                escaped = true;
            } else if b == '"' {
                in_string = false;
            }
            i += 1;
            continue;
        }
        if b == '"' {
            in_string = true;
        } else if b == '{' {
            depth += 1;
        } else if b == '}' {
            depth -= 1;
            if depth == 0 {
                proof {
                    lemma_scan_range(t@, start as int, 0, false, false);
                }
                return Some(text.substring_char(start, i + 1));
            }
        }
        i += 1;
    }
    None
}

// ---------------------------------------------------------------------------
// Changed files
// ---------------------------------------------------------------------------

/// `s` with every leading and trailing `"` removed (`trim_matches('"')`).
pub open spec fn trim_quotes(s: Seq<char>) -> Seq<char>
    decreases s.len(),
{
    if s.len() > 0 && s[0] == '"' {
        trim_quotes(s.drop_first())
    } else if s.len() > 0 && s.last() == '"' {
        trim_quotes(s.drop_last())
    } else {
        s
    }
}

/// The path a `git status --porcelain` line names: after the two status
/// characters and a space (the first three bytes), the destination of a
/// rename, unquoted. Lines under four bytes name none.
pub open spec fn status_path(l: Seq<char>) -> Option<Seq<char>> {
    if utf8_len(l) < 4 {
        None
    } else {
        let rest = trim(l.skip(boundary_from(l, 3, 0)));
        let k = find_sub(rest, " -> "@, 0);
        let path = if k >= 0 { rest.skip(k + " -> "@.len()) } else { rest };
        let path = trim_quotes(trim(path));
        if path.len() == 0 { None } else { Some(path) }
    }
}

pub open spec fn collect_paths(ls: Seq<Seq<char>>, f: spec_fn(Seq<char>) -> Option<Seq<char>>) -> Seq<Seq<char>>
    decreases ls.len(),
{
    if ls.len() == 0 {
        Seq::empty()
    } else {
        collect_paths(ls.drop_last(), f) + match f(ls.last()) {
            Some(p) => seq![p],
            None => Seq::empty(),
        }
    }
}

/// Every status line of four bytes or more has a character boundary after
/// its third byte, where the path begins.
pub open spec fn status_lines_split_cleanly(ls: Seq<Seq<char>>) -> bool {
    forall|i: int| 0 <= i < ls.len() && utf8_len(#[trigger] ls[i]) >= 4 ==> boundary_from(ls[i], 3, 0) >= 0
}

fn trim_quotes_exec(v: &[char]) -> (out: Vec<char>)
    ensures
        out@ == trim_quotes(v@),
{
    let mut a: usize = 0;
    let mut b: usize = v.len();
    assert(v@.subrange(0, b as int) =~= v@);
    while a < b && v[a] == '"'
        invariant
            a <= b <= v@.len(),
            b == v@.len(),
            trim_quotes(v@) == trim_quotes(v@.subrange(a as int, b as int)),
        decreases b - a,
    {
        assert(v@.subrange(a as int, b as int).drop_first() =~= v@.subrange(a + 1, b as int));
        a += 1;
    }
    while a < b && v[b - 1] == '"'
        invariant
            a <= b <= v@.len(),
            a == b || v@[a as int] != '"',
            trim_quotes(v@) == trim_quotes(v@.subrange(a as int, b as int)),
        decreases b - a,
    {
        assert(v@.subrange(a as int, b as int).drop_last() =~= v@.subrange(a as int, b - 1));
        b -= 1;
    }
    slice_chars(v, a, b)
}

fn status_path_exec(l: &[char]) -> (r: Option<Vec<char>>)
    requires
        utf8_len(l@) >= 4 ==> boundary_from(l@, 3, 0) >= 0,
    ensures
        match r {
            Some(p) => status_path(l@) == Some(p@),
            None => status_path(l@) is None,
        },
{
    if !utf8_len_at_least(l, 4) {
        return None;
    }
    let cut = match char_index_at_byte(l, 3) {
        Some(j) => j,
        None => return None,
    };
    let tail = slice_chars(l, cut, l.len());
    assert(tail@ =~= l@.skip(cut as int));
    let rest = trim_chars(tail.as_slice());
    let arrow = chars_of(" -> ");
    let path = match find_sub_exec(rest.as_slice(), arrow.as_slice(), 0) {
        Some(k) => {
            let rlen = rest.len();
            let p = slice_chars(rest.as_slice(), k + arrow.len(), rlen);
            assert(p@ =~= rest@.skip(k + " -> "@.len()));
            p
        },
        None => slice_chars(rest.as_slice(), 0, rest.len()),
    };
    proof {
        if find_sub(rest@, " -> "@, 0) < 0 {
            assert(path@ =~= rest@);
        }
    }
    let t = trim_chars(path.as_slice());
    let p = trim_quotes_exec(t.as_slice());
    if p.len() == 0 {
        None
    } else {
        Some(p)
    }
}

/// Changed paths from `git status --porcelain`: a rename names its
/// destination.
pub fn files_from_status(status: &str) -> (out: Vec<String>)
    requires
        status_lines_split_cleanly(lines(status@)),
    ensures
        string_views(out@) == collect_paths(lines(status@), |l: Seq<char>| status_path(l)),
{
    let s = chars_of(status);
    let ls = split_lines(s.as_slice());
    let ghost all = ls@.map_values(|v: Vec<char>| v@);
    let mut out: Vec<String> = Vec::new();
    let mut i: usize = 0;
    while i < ls.len()
        invariant
            i <= ls@.len(),
            all == ls@.map_values(|v: Vec<char>| v@),
            all == lines(status@),
            status_lines_split_cleanly(all),
            string_views(out@) == collect_paths(all.take(i as int), |l: Seq<char>| status_path(l)),
        decreases ls@.len() - i,
    {
        let ghost before = string_views(out@);
        assert(all.take(i + 1).drop_last() =~= all.take(i as int));
        assert(all.take(i + 1).last() == ls@[i as int]@);
        assert(all[i as int] == ls@[i as int]@);
        match status_path_exec(ls[i].as_slice()) {
            Some(p) => {
                out.push(string_of(p.as_slice()));
                assert(string_views(out@) =~= before + seq![p@]);
            },
            None => {
                assert(string_views(out@) =~= before + Seq::<Seq<char>>::empty());
            },
        }
        i += 1;
    }
    assert(all.take(i as int) =~= all);
    out
}

/// The path a diff header names after `+++ ` or `--- `: up to a tab, trimmed,
/// without `a/` or `b/`; none for `/dev/null`.
pub open spec fn diff_header_path(rest: Seq<char>) -> Option<Seq<char>> {
    let k = find_sub(rest, seq!['\t'], 0);
    let raw = trim(if k >= 0 { rest.take(k) } else { rest });
    if raw.len() == 0 || raw == "/dev/null"@ {
        None
    } else if "a/"@.is_prefix_of(raw) || "b/"@.is_prefix_of(raw) {
        Some(raw.skip(2))
    } else {
        Some(raw)
    }
}

pub open spec fn diff_path(l: Seq<char>) -> Option<Seq<char>> {
    if "+++ "@.is_prefix_of(l) || "--- "@.is_prefix_of(l) {
        diff_header_path(l.skip(4))
    } else {
        None
    }
}

fn diff_path_exec(l: &[char]) -> (r: Option<Vec<char>>)
    ensures
        match r {
            Some(p) => diff_path(l@) == Some(p@),
            None => diff_path(l@) is None,
        },
{
    proof {
        reveal_strlit("+++ ");
        reveal_strlit("--- ");
        reveal_strlit("a/");
        reveal_strlit("b/");
    }
    if !(starts_with_str(l, "+++ ") || starts_with_str(l, "--- ")) {
        return None;
    }
    let rest = slice_chars(l, 4, l.len());
    assert(rest@ =~= l@.skip(4));
    let tab: Vec<char> = vec!['\t'];
    assert(tab@ =~= seq!['\t']);
    let cut = match find_sub_exec(rest.as_slice(), tab.as_slice(), 0) {
        Some(k) => slice_chars(rest.as_slice(), 0, k),
        None => slice_chars(rest.as_slice(), 0, rest.len()),
    };
    proof {
        if find_sub(rest@, seq!['\t'], 0) < 0 {
            assert(cut@ =~= rest@);
        }
    }
    let raw = trim_chars(cut.as_slice());
    if raw.len() == 0 || crate::text::chars_eq_str(raw.as_slice(), "/dev/null") {
        return None;
    }
    if starts_with_str(raw.as_slice(), "a/") || starts_with_str(raw.as_slice(), "b/") {
        let p = slice_chars(raw.as_slice(), 2, raw.len());
        assert(p@ =~= raw@.skip(2));
        Some(p)
    } else {
        Some(raw)
    }
}

/// Changed paths from unified `git diff` output, via its `+++ b/<path>` and
/// `--- a/<path>` headers.
pub fn files_from_diff(diff: &str) -> (out: Vec<String>)
    ensures
        string_views(out@) == collect_paths(lines(diff@), |l: Seq<char>| diff_path(l)),
{
    let s = chars_of(diff);
    let ls = split_lines(s.as_slice());
    let ghost all = ls@.map_values(|v: Vec<char>| v@);
    let mut out: Vec<String> = Vec::new();
    let mut i: usize = 0;
    while i < ls.len()
        invariant
            i <= ls@.len(),
            all == ls@.map_values(|v: Vec<char>| v@),
            string_views(out@) == collect_paths(all.take(i as int), |l: Seq<char>| diff_path(l)),
        decreases ls@.len() - i,
    {
        let ghost before = string_views(out@);
        assert(all.take(i + 1).drop_last() =~= all.take(i as int));
        assert(all.take(i + 1).last() == ls@[i as int]@);
        match diff_path_exec(ls[i].as_slice()) {
            Some(p) => {
                out.push(string_of(p.as_slice()));
                assert(string_views(out@) =~= before + seq![p@]);
            },
            None => {
                assert(string_views(out@) =~= before + Seq::<Seq<char>>::empty());
            },
        }
        i += 1;
    }
    assert(all.take(i as int) =~= all);
    out
}

/// `(none)` for blank text, else the trimmed text.
pub fn trim_or_none(text: &str) -> (out: String)
    ensures
        out@ == (if trim(text@).len() == 0 { "(none)"@ } else { trim(text@) }),
{
    let t = crate::text::trim_str(text);
    if t.len() == 0 {
        String::from_str("(none)")
    } else {
        string_of(t.as_slice())
    }
}

/// `text` cut to `max` characters, `...` appended when it was longer.
pub fn truncate(text: &str, max: usize) -> (out: String)
    ensures
        out@ == truncate_dots(text@, max as nat),
{
    let v = chars_of(text);
    let t = truncate_with_dots(v.as_slice(), max);
    string_of(t.as_slice())
}

// ---------------------------------------------------------------------------
// Reading a generated contract
// ---------------------------------------------------------------------------

/// The surfaces a contract may name.
pub open spec fn valid_surface(s: Seq<char>) -> bool {
    s == "macos-gui"@ || s == "web"@ || s == "cli"@ || s == "api"@
}

/// The valid surfaces among the strings of an array, trimmed and lowercased.
pub open spec fn surfaces_of(items: Seq<JsonTree>) -> Seq<Seq<char>>
    decreases items.len(),
{
    if items.len() == 0 {
        Seq::empty()
    } else {
        surfaces_of(items.drop_last()) + match as_str(items.last()) {
            Some(s) => if valid_surface(unicode_lowercase(trim(s))) {
                seq![unicode_lowercase(trim(s))]
            } else {
                Seq::empty()
            },
            None => Seq::empty(),
        }
    }
}

/// A checklist item as values: id, scenario and expectation (every parsed
/// item is pending, with no note).
pub struct ItemView {
    pub id: Seq<char>,
    pub scenario: Seq<char>,
    pub expect: Seq<char>,
}

/// The trimmed text of the first of three members that is present, empty
/// when it is absent or not a string.
pub open spec fn first_text(item: JsonTree, a: Seq<char>, b: Seq<char>, c: Seq<char>) -> Seq<char> {
    trim(match first_present(item, a, b, c) {
        Some(v) => match as_str(v) {
            Some(s) => s,
            None => Seq::empty(),
        },
        None => Seq::empty(),
    })
}

/// One checklist entry (at position `n`, counting from 1), none when it has
/// neither scenario nor expectation. A missing or blank id becomes `T<n>`.
pub open spec fn checklist_item(item: JsonTree, n: nat) -> Option<ItemView> {
    let scenario = first_text(item, "scenario"@, "test"@, "description"@);
    let expect = first_text(item, "expect"@, "expected"@, "expectation"@);
    if scenario.len() == 0 && expect.len() == 0 {
        None
    } else {
        let given = match str_member(item, "id"@) {
            Some(s) => trim(s),
            None => Seq::empty(),
        };
        Some(ItemView {
            id: if given.len() > 0 { given } else { seq!['T'] + decimal(n) },
            scenario,
            expect,
        })
    }
}

pub open spec fn checklist_of(items: Seq<JsonTree>) -> Seq<ItemView>
    decreases items.len(),
{
    if items.len() == 0 {
        Seq::empty()
    } else {
        checklist_of(items.drop_last()) + match checklist_item(items.last(), items.len()) {
            Some(it) => seq![it],
            None => Seq::empty(),
        }
    }
}

/// What a model's contract reply holds: the first JSON object in it (after
/// any code fence), its valid surfaces and its checklist; none when there is
/// no object or it is not JSON.
pub open spec fn parse_contract_spec(raw: Seq<char>) -> Option<(Seq<Seq<char>>, Seq<ItemView>)> {
    match first_object_spec(strip_fences_spec(raw)) {
        None => None,
        Some(candidate) => match json_parse(candidate) {
            Err(_) => None,
            Ok(v) => Some((
                match get(v, "surfaces"@) {
                    Some(s) => match as_array(s) {
                        Some(items) => surfaces_of(items),
                        None => Seq::empty(),
                    },
                    None => Seq::empty(),
                },
                match get(v, "checklist"@) {
                    Some(c) => match as_array(c) {
                        Some(items) => checklist_of(items),
                        None => Seq::empty(),
                    },
                    None => Seq::empty(),
                },
            )),
        },
    }
}

pub open spec fn item_view(it: ChecklistItem) -> ItemView {
    ItemView { id: it.id@, scenario: it.scenario@, expect: it.expect@ }
}

pub open spec fn parsed_items(v: Seq<ChecklistItem>) -> Seq<ItemView> {
    v.map_values(|it: ChecklistItem| item_view(it))
}

fn surfaces_exec(items: &Vec<Json>) -> (out: Vec<String>)
    ensures
        string_views(out@) == surfaces_of(trees_of(items@)),
{
    proof {
        lemma_trees_of(items@);
    }
    let ghost ts = trees_of(items@);
    let mut out: Vec<String> = Vec::new();
    let mut i: usize = 0;
    assert(ts.take(0) =~= Seq::<JsonTree>::empty());
    assert(string_views(out@) =~= Seq::<Seq<char>>::empty());
    while i < items.len()
        invariant
            i <= items@.len(),
            ts == trees_of(items@),
            ts.len() == items@.len(),
            forall|k: int| 0 <= k < items@.len() ==> #[trigger] ts[k] == items@[k]@,
            string_views(out@) == surfaces_of(ts.take(i as int)),
        decreases items@.len() - i,
    {
        assert(ts.take(i + 1).drop_last() =~= ts.take(i as int));
        assert(ts.take(i + 1).last() == items@[i as int]@);
        let ghost before = string_views(out@);
        match items[i].as_str() {
            Some(s) => {
                let t = trim_str(s);
                let ts2 = string_of(t.as_slice());
                let l = to_lowercase(ts2.as_str());
                let lc = chars_of(l.as_str());
                let x = lc.as_slice();
                if chars_eq_str(x, "macos-gui") || chars_eq_str(x, "web") || chars_eq_str(x, "cli") || chars_eq_str(x, "api") {
                    out.push(l);
                    assert(string_views(out@) =~= before + seq![unicode_lowercase(trim(s@))]);
                } else {
                    assert(string_views(out@) =~= before + Seq::<Seq<char>>::empty());
                }
            },
            None => {
                assert(string_views(out@) =~= before + Seq::<Seq<char>>::empty());
            },
        }
        i += 1;
    }
    assert(ts.take(i as int) =~= ts);
    out
}

fn first_text_exec(item: &Json, a: &str, b: &str, c: &str) -> (out: Vec<char>)
    ensures
        out@ == first_text(item@, a@, b@, c@),
{
    match first_present_exec(item, a, b, c) {
        Some(v) => match v.as_str() {
            Some(s) => trim_str(s),
            None => {
                let e: Vec<char> = Vec::new();
                proof {
                    crate::text::lemma_trim_empty();
                }
                e
            },
        },
        None => {
            let e: Vec<char> = Vec::new();
            proof {
                crate::text::lemma_trim_empty();
            }
            e
        },
    }
}

fn checklist_item_exec(item: &Json, n: u64) -> (r: Option<ChecklistItem>)
    ensures
        match r {
            Some(it) => checklist_item(item@, n as nat) == Some(item_view(it)) && it.status@ == "pending"@
                && it.note@.len() == 0,
            None => checklist_item(item@, n as nat) is None,
        },
{
    let scenario = first_text_exec(item, "scenario", "test", "description");
    let expect = first_text_exec(item, "expect", "expected", "expectation");
    if scenario.len() == 0 && expect.len() == 0 {
        return None;
    }
    let given = match get_str(item, "id") {
        Some(s) => trim_str(s),
        None => {
            proof {
                crate::text::lemma_trim_empty();
            }
            Vec::new()
        },
    };
    let id = if given.len() > 0 {
        string_of(given.as_slice())
    } else {
        let mut v = vec!['T'];
        let d = decimal_string(n);
        extend_chars(&mut v, d.as_slice());
        assert(v@ =~= seq!['T'] + decimal(n as nat));
        string_of(v.as_slice())
    };
    Some(ChecklistItem {
        id,
        scenario: string_of(scenario.as_slice()),
        expect: string_of(expect.as_slice()),
        status: String::from_str("pending"),
        note: String::new(),
    })
}

fn checklist_exec(items: &Vec<Json>) -> (out: Vec<ChecklistItem>)
    ensures
        parsed_items(out@) == checklist_of(trees_of(items@)),
        forall|k: int| 0 <= k < out@.len() ==> (#[trigger] out@[k]).status@ == "pending"@ && out@[k].note@.len() == 0,
{
    proof {
        lemma_trees_of(items@);
    }
    let ghost ts = trees_of(items@);
    let mut out: Vec<ChecklistItem> = Vec::new();
    let mut i: usize = 0;
    assert(ts.take(0) =~= Seq::<JsonTree>::empty());
    assert(parsed_items(out@) =~= Seq::<ItemView>::empty());
    while i < items.len()
        invariant
            i <= items@.len(),
            ts == trees_of(items@),
            ts.len() == items@.len(),
            forall|k: int| 0 <= k < items@.len() ==> #[trigger] ts[k] == items@[k]@,
            parsed_items(out@) == checklist_of(ts.take(i as int)),
            forall|k: int| 0 <= k < out@.len() ==> (#[trigger] out@[k]).status@ == "pending"@ && out@[k].note@.len() == 0,
        decreases items@.len() - i,
    {
        assert(ts.take(i + 1).drop_last() =~= ts.take(i as int));
        assert(ts.take(i + 1).last() == items@[i as int]@);
        let ghost before = parsed_items(out@);
        let n: u64 = (i as u64) + 1;
        match checklist_item_exec(&items[i], n) {
            Some(it) => {
                out.push(it);
                assert(parsed_items(out@) =~= before + seq![item_view(it)]);
            },
            None => {
                assert(parsed_items(out@) =~= before + Seq::<ItemView>::empty());
            },
        }
        i += 1;
    }
    assert(ts.take(i as int) =~= ts);
    out
}

/// Read a model's contract reply: the surfaces and the checklist (every item
/// pending), or none when the reply holds no JSON object.
pub fn parse_contract_json(raw: &str) -> (r: Option<(Vec<String>, Vec<ChecklistItem>)>)
    ensures
        match r {
            Some((s, c)) => parse_contract_spec(raw@) == Some((string_views(s@), parsed_items(c@)))
                && forall|k: int| 0 <= k < c@.len() ==> (#[trigger] c@[k]).status@ == "pending"@ && c@[k].note@.len() == 0,
            None => parse_contract_spec(raw@) is None,
        },
{
    let stripped = strip_fences(raw);
    let candidate = match first_balanced_object(stripped) {
        Some(c) => c,
        None => return None,
    };
    let value = match parse_json(candidate) {
        Ok(v) => v,
        Err(_) => return None,
    };
    let no_surfaces: Vec<String> = Vec::new();
    assert(string_views(no_surfaces@) =~= Seq::<Seq<char>>::empty());
    let no_items: Vec<ChecklistItem> = Vec::new();
    assert(parsed_items(no_items@) =~= Seq::<ItemView>::empty());
    let surfaces = match value.get("surfaces") {
        Some(s) => match s.as_array() {
            Some(items) => surfaces_exec(items),
            None => no_surfaces,
        },
        None => no_surfaces,
    };
    let checklist = match value.get("checklist") {
        Some(c) => match c.as_array() {
            Some(items) => checklist_exec(items),
            None => no_items,
        },
        None => no_items,
    };
    Some((surfaces, checklist))
}

// ---------------------------------------------------------------------------
// The generation request
// ---------------------------------------------------------------------------

/// The surfaces a checklist may name, in the order the prompt lists them.
pub open spec fn valid_surface_list() -> Seq<char> {
    "macos-gui, web, cli, api"@
}

/// The request sent to the model for a checklist.
pub open spec fn build_prompt_spec(diff_context: Seq<char>, knowledge: Seq<char>) -> Seq<char> {
    "Produce a test checklist for the change below.\n\n<change_context>\n"@ + diff_context
        + "\n</change_context>\n\n<project_knowledge>\n"@
        + (if trim(knowledge).len() == 0 { "(no project knowledge files found)"@ } else { trim(knowledge) })
        + "\n</project_knowledge>\n\nReturn STRICT JSON in exactly this shape and nothing else:\n{\"surfaces\":[\"...\"],\"checklist\":[{\"id\":\"T1\",\"scenario\":\"...\",\"expect\":\"...\"}]}\nRules:\n- surfaces must be chosen only from: "@
        + valid_surface_list()
        + ".\n- Each checklist item needs a short stable id (e.g. T1, T2), a concrete scenario to exercise, and the expected result.\n- Cover changed behavior, relevant project requirements, edge cases, and likely regressions.\n- Do not include a status field; do not wrap the JSON in markdown fences."@
}

/// Build the checklist request from the change context and the project
/// knowledge.
pub fn build_prompt(diff_context: &str, knowledge: &str) -> (out: String)
    ensures
        out@ == build_prompt_spec(diff_context@, knowledge@),
{
    let mut v = chars_of("Produce a test checklist for the change below.\n\n<change_context>\n");
    extend_str(&mut v, diff_context);
    extend_str(&mut v, "\n</change_context>\n\n<project_knowledge>\n");
    let k = crate::text::trim_str(knowledge);
    if k.len() == 0 {
        extend_str(&mut v, "(no project knowledge files found)");
    } else {
        extend_chars(&mut v, k.as_slice());
    }
    extend_str(&mut v, "\n</project_knowledge>\n\nReturn STRICT JSON in exactly this shape and nothing else:\n{\"surfaces\":[\"...\"],\"checklist\":[{\"id\":\"T1\",\"scenario\":\"...\",\"expect\":\"...\"}]}\nRules:\n- surfaces must be chosen only from: ");
    extend_str(&mut v, "macos-gui, web, cli, api");
    extend_str(&mut v, ".\n- Each checklist item needs a short stable id (e.g. T1, T2), a concrete scenario to exercise, and the expected result.\n- Cover changed behavior, relevant project requirements, edge cases, and likely regressions.\n- Do not include a status field; do not wrap the JSON in markdown fences.");
    string_of(v.as_slice())
}

/// One project knowledge source in the request: the trimmed text (cut to
/// 8000 characters) between tags named by its label; nothing when blank.
pub fn knowledge_section(label: &str, text: &str) -> (out: String)
    ensures
        out@ == if trim(text@).len() == 0 {
            Seq::<char>::empty()
        } else {
            "<"@ + label@ + ">\n"@ + truncate_dots(trim(text@), 8000) + "\n</"@ + label@ + ">\n\n"@
        },
{
    let t = crate::text::trim_str(text);
    if t.len() == 0 {
        return String::new();
    }
    let mut v = chars_of("<");
    extend_str(&mut v, label);
    extend_str(&mut v, ">\n");
    let cut = truncate_with_dots(t.as_slice(), 8000);
    extend_chars(&mut v, cut.as_slice());
    extend_str(&mut v, "\n</");
    extend_str(&mut v, label);
    extend_str(&mut v, ">\n\n");
    string_of(v.as_slice())
}

/// The change context without git: the tail of the change log.
pub fn log_change_context(log: &str) -> (out: String)
    ensures
        out@ == "This is not a git repository (or git is unavailable). Recent change log (tail of biscuit/logs.md):\n"@
            + (if trim(log@).len() == 0 { "(none)"@ } else { trim(log@) }),
{
    let mut v = chars_of("This is not a git repository (or git is unavailable). Recent change log (tail of biscuit/logs.md):\n");
    let t = trim_or_none(log);
    extend_str(&mut v, t.as_str());
    string_of(v.as_slice())
}

/// The change context from git: the status and the diff (cut to 16000
/// characters), and the changed files named by either, sorted, each once.
pub fn git_change_context(diff: &str, status: &str) -> (r: (String, Vec<ChangedItem>))
    requires
        status_lines_split_cleanly(lines(status@)),
    ensures
        r.0@ == "git status --porcelain:\n"@ + (if trim(status@).len() == 0 { "(none)"@ } else { trim(status@) })
            + "\n\ngit diff:\n"@ + truncate_dots(diff@, 16000),
        crate::observations::sorted_keys(changed_files_view(r.1@)),
        changed_files_view(r.1@).to_set() == collect_paths(lines(status@), |l: Seq<char>| status_path(l)).to_set()
            + collect_paths(lines(diff@), |l: Seq<char>| diff_path(l)).to_set(),
        forall|i: int| 0 <= i < r.1@.len() ==> (#[trigger] r.1@[i]).summary@.len() == 0,
{
    let from_status = files_from_status(status);
    let from_diff = files_from_diff(diff);
    let ghost a = collect_paths(lines(status@), |l: Seq<char>| status_path(l));
    let ghost b = collect_paths(lines(diff@), |l: Seq<char>| diff_path(l));
    let mut keyed: Vec<(String, ())> = Vec::new();
    let mut i: usize = 0;
    while i < from_status.len()
        invariant
            i <= from_status@.len(),
            string_views(from_status@) == a,
            crate::observations::sorted_keys(crate::observations::keys_of(keyed@)),
            crate::observations::keys_of(keyed@).to_set() == string_views(from_status@.take(i as int)).to_set(),
        decreases from_status@.len() - i,
    {
        proof {
            lemma_views_take_push(from_status@, i as int);
        }
        crate::observations::insert_sorted(&mut keyed, from_status[i].clone(), ());
        i += 1;
    }
    assert(from_status@.take(i as int) =~= from_status@);
    let ghost sa = crate::observations::keys_of(keyed@).to_set();
    let mut j: usize = 0;
    while j < from_diff.len()
        invariant
            j <= from_diff@.len(),
            string_views(from_diff@) == b,
            crate::observations::sorted_keys(crate::observations::keys_of(keyed@)),
            crate::observations::keys_of(keyed@).to_set() == sa + string_views(from_diff@.take(j as int)).to_set(),
        decreases from_diff@.len() - j,
    {
        proof {
            lemma_views_take_push(from_diff@, j as int);
        }
        crate::observations::insert_sorted(&mut keyed, from_diff[j].clone(), ());
        proof {
            assert(crate::observations::keys_of(keyed@).to_set() =~= sa + string_views(from_diff@.take(j + 1)).to_set());
        }
        j += 1;
    }
    assert(from_diff@.take(j as int) =~= from_diff@);
    let mut changed: Vec<ChangedItem> = Vec::new();
    let mut k: usize = 0;
    while k < keyed.len()
        invariant
            k <= keyed@.len(),
            changed_files_view(changed@) == crate::observations::keys_of(keyed@).take(k as int),
            forall|x: int| 0 <= x < changed@.len() ==> (#[trigger] changed@[x]).summary@.len() == 0,
        decreases keyed@.len() - k,
    {
        let ghost before = changed@;
        changed.push(ChangedItem { file: keyed[k].0.clone(), summary: String::new() });
        proof {
            assert(changed@.drop_last() =~= before);
            assert(crate::observations::keys_of(keyed@).take(k + 1) =~= crate::observations::keys_of(keyed@).take(k as int).push(keyed@[k as int].0@));
        }
        k += 1;
    }
    assert(crate::observations::keys_of(keyed@).take(k as int) =~= crate::observations::keys_of(keyed@));
    let mut v = chars_of("git status --porcelain:\n");
    let st = trim_or_none(status);
    extend_str(&mut v, st.as_str());
    extend_str(&mut v, "\n\ngit diff:\n");
    let dt = truncate(diff, 16000);
    extend_str(&mut v, dt.as_str());
    (string_of(v.as_slice()), changed)
}

/// The file names of changed items.
pub open spec fn changed_files_view(items: Seq<ChangedItem>) -> Seq<Seq<char>>
    decreases items.len(),
{
    if items.len() == 0 {
        Seq::empty()
    } else {
        changed_files_view(items.drop_last()).push(items.last().file@)
    }
}

proof fn lemma_views_take_push(v: Seq<String>, i: int)
    requires
        0 <= i < v.len(),
    ensures
        string_views(v.take(i + 1)).to_set() == string_views(v.take(i)).to_set().insert(v[i]@),
{
    let a = string_views(v.take(i));
    let b = string_views(v.take(i + 1));
    assert(v.take(i + 1).drop_last() =~= v.take(i));
    assert(b == a.push(v[i]@));
    assert forall|y: Seq<char>| #[trigger] b.to_set().contains(y) <==> a.to_set().insert(v[i]@).contains(y) by {
        if b.contains(y) {
            let j = choose|j: int| 0 <= j < b.len() && b[j] == y;
            if j < a.len() {
                assert(a[j] == y);
            }
        }
        if a.contains(y) {
            let j = choose|j: int| 0 <= j < a.len() && a[j] == y;
            assert(b[j] == y);
        }
        if y == v[i]@ {
            assert(b[a.len() as int] == y);
        }
    }
    assert(b.to_set() =~= a.to_set().insert(v[i]@));
}

} // verus!
