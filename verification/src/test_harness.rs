//! The test harness: which test command a workspace uses, how a filter is
//! added to it, how its output is counted, and how a run compares with the
//! baseline.
use vstd::prelude::*;
use crate::markdown::{lines, split_lines};
use crate::memory::{redact_text, scrub_spec};
use crate::patterns::{captures, first_groups, is_match, regex_captures, regex_first_groups, regex_is_match};
use crate::text::{
    chars_eq_str, chars_of, decimal, decimal_string, extend_chars, extend_str, parse_u64,
    parse_unsigned_spec, starts_with_str, string_of, views,
};

verus! {

broadcast use vstd::string::group_string_axioms;

/// One run of a test suite: the command, its flavor, the counts read from
/// its output, its exit code, how long it took, its (redacted) output and
/// when it ran.
pub struct TestRun {
    pub command: String,
    pub flavor: String,
    pub passed: u64,
    pub failed: u64,
    pub skipped: u64,
    pub exit_code: i32,
    pub duration_ms: u128,
    pub raw_output: String,
    pub timestamp: u64,
}

/// A run compared with the baseline.
pub struct TestDiff {
    pub baseline: TestRun,
    pub current: TestRun,
    pub net_new_failures: i64,
    pub net_fixed_failures: i64,
    pub has_regression: bool,
}

/// Compare a run with the baseline: the change in failures either way, and
/// a regression when there are more failures than before.
pub fn diff_runs(baseline: TestRun, current: TestRun) -> (d: TestDiff)
    requires
        baseline.failed <= i64::MAX,
        current.failed <= i64::MAX,
    ensures
        d.net_new_failures == current.failed - baseline.failed,
        d.net_fixed_failures == baseline.failed - current.failed,
        d.has_regression == (current.failed > baseline.failed),
        d.baseline == baseline,
        d.current == current,
{
    let b = baseline.failed as i64;
    let c = current.failed as i64;
    let net_new_failures = c - b;
    let net_fixed_failures = b - c;
    TestDiff { baseline, current, net_new_failures, net_fixed_failures, has_regression: net_new_failures > 0 }
}

/// A test command and the flavor that tells how to read its output.
pub struct TestPlan {
    pub flavor: &'static str,
    pub command: String,
}

pub open spec fn has_file(present: Seq<String>, name: Seq<char>) -> bool {
    exists|i: int| 0 <= i < present.len() && (#[trigger] present[i])@ == name
}

/// The test suite a workspace uses, by the files at its root (first match
/// wins): Swift, pytest, Node, Cargo (run with `cargo`), Go, RSpec, or a
/// Makefile.
pub open spec fn detect_spec(present: Seq<String>, cargo: Seq<char>) -> Option<(Seq<char>, Seq<char>)> {
    if has_file(present, "Package.swift"@) {
        Some(("swift"@, "swift test"@))
    } else if has_file(present, "pyproject.toml"@) || has_file(present, "pytest.ini"@) || has_file(present, "setup.py"@) {
        Some(("pytest"@, "pytest"@))
    } else if has_file(present, "package.json"@) {
        Some(("node"@, "npm test"@))
    } else if has_file(present, "Cargo.toml"@) {
        Some(("cargo"@, cargo + " test"@))
    } else if has_file(present, "go.mod"@) {
        Some(("go"@, "go test ./..."@))
    } else if has_file(present, "Gemfile"@) || has_file(present, ".rspec"@) {
        Some(("rspec"@, "bundle exec rspec"@))
    } else if has_file(present, "Makefile"@) {
        Some(("generic"@, "make test"@))
    } else {
        None
    }
}

fn has_file_exec(present: &Vec<String>, name: &str) -> (b: bool)
    ensures
        b == has_file(present@, name@),
{
    let mut i: usize = 0;
    while i < present.len()
        invariant
            i <= present@.len(),
            forall|j: int| 0 <= j < i ==> (#[trigger] present@[j])@ != name@,
        decreases present@.len() - i,
    {
        let c = chars_of(present[i].as_str());
        if chars_eq_str(c.as_slice(), name) {
            return true;
        }
        i += 1;
    }
    false
}

/// The test plan for a workspace whose root holds the files `present`;
/// `cargo` is the cargo program to run.
pub fn detect(present: &Vec<String>, cargo: &str) -> (p: Option<TestPlan>)
    ensures
        match p {
            Some(t) => detect_spec(present@, cargo@) == Some((t.flavor@, t.command@)),
            None => detect_spec(present@, cargo@) is None,
        },
{
    if has_file_exec(present, "Package.swift") {
        Some(TestPlan { flavor: "swift", command: String::from_str("swift test") })
    } else if has_file_exec(present, "pyproject.toml") || has_file_exec(present, "pytest.ini")
        || has_file_exec(present, "setup.py") {
        Some(TestPlan { flavor: "pytest", command: String::from_str("pytest") })
    } else if has_file_exec(present, "package.json") {
        Some(TestPlan { flavor: "node", command: String::from_str("npm test") })
    } else if has_file_exec(present, "Cargo.toml") {
        let mut v = chars_of(cargo);
        extend_str(&mut v, " test");
        Some(TestPlan { flavor: "cargo", command: string_of(v.as_slice()) })
    } else if has_file_exec(present, "go.mod") {
        Some(TestPlan { flavor: "go", command: String::from_str("go test ./...") })
    } else if has_file_exec(present, "Gemfile") || has_file_exec(present, ".rspec") {
        Some(TestPlan { flavor: "rspec", command: String::from_str("bundle exec rspec") })
    } else if has_file_exec(present, "Makefile") {
        Some(TestPlan { flavor: "generic", command: String::from_str("make test") })
    } else {
        None
    }
}

/// The command with a test filter added the way its flavor takes one.
pub open spec fn filtered_spec(flavor: Seq<char>, base: Seq<char>, filter: Seq<char>) -> Seq<char> {
    if flavor == "pytest"@ {
        base + " -k "@ + filter
    } else if flavor == "go"@ {
        base + " -run "@ + filter
    } else if flavor == "node"@ {
        base + " -- "@ + filter
    } else {
        base + " "@ + filter
    }
}

pub fn filtered_command(flavor: &str, base: &str, filter: &str) -> (out: String)
    ensures
        out@ == filtered_spec(flavor@, base@, filter@),
{
    let f = chars_of(flavor);
    let mut v = chars_of(base);
    if chars_eq_str(f.as_slice(), "pytest") {
        extend_str(&mut v, " -k ");
    } else if chars_eq_str(f.as_slice(), "go") {
        extend_str(&mut v, " -run ");
    } else if chars_eq_str(f.as_slice(), "node") {
        extend_str(&mut v, " -- ");
    } else {
        extend_str(&mut v, " ");
    }
    extend_str(&mut v, filter);
    string_of(v.as_slice())
}

/// The characters a test filter may use.
pub const FILTER_PATTERN: &'static str = r"^[A-Za-z0-9_./:=-]+$";

/// A filter is accepted when it is made only of letters, digits and
/// `_ . / : = -` (as the pattern decides).
pub fn validate_filter(filter: &str) -> (r: Result<(), String>)
    ensures
        r is Ok <==> regex_is_match(FILTER_PATTERN@, filter@) == Some(true),
        r matches Err(e) ==> e@ == "unsafe test filter; allowed chars are letters, numbers, _ . / : = -"@,
{
    match is_match(FILTER_PATTERN, filter) {
        Some(true) => Ok(()),
        _ => Err(String::from_str("unsafe test filter; allowed chars are letters, numbers, _ . / : = -")),
    }
}

// ---------------------------------------------------------------------------
// Reading test output
// ---------------------------------------------------------------------------

/// A captured number, zero when the group is missing or not a `u64`.
pub open spec fn number_or_zero(g: Option<Seq<char>>) -> nat {
    match g {
        Some(s) => match parse_unsigned_spec(s, u64::MAX as nat) {
            Some(n) => n,
            None => 0,
        },
        None => 0,
    }
}

/// The numbers captured by the first match of `pat`.
pub open spec fn cap_spec(text: Seq<char>, pat: Seq<char>) -> Option<Seq<nat>> {
    match regex_first_groups(pat, text) {
        Some(gs) => Some(gs.map_values(|g: Option<Seq<char>>| number_or_zero(g))),
        None => None,
    }
}

/// The sum of the numbers among `gs` (others skipped), saturating at
/// `u64::MAX`.
pub open spec fn number_sum(gs: Seq<Seq<char>>) -> nat
    decreases gs.len(),
{
    if gs.len() == 0 {
        0
    } else {
        let s = number_sum(gs.drop_last()) + match parse_unsigned_spec(gs.last(), u64::MAX as nat) {
            Some(n) => n,
            None => 0nat,
        };
        if s > u64::MAX { u64::MAX as nat } else { s }
    }
}

/// The sum of the first-group numbers of every match of `pat`.
pub open spec fn sum_spec(text: Seq<char>, pat: Seq<char>) -> nat {
    match regex_captures(pat, text) {
        Some(gs) => number_sum(gs),
        None => 0,
    }
}

fn number_of(g: &Option<String>) -> (n: u64)
    ensures
        n == number_or_zero(match *g {
            Some(s) => Some(s@),
            None => None,
        }),
{
    match g {
        Some(s) => {
            let c = chars_of(s.as_str());
            match parse_u64(c.as_slice()) {
                Some(n) => n,
                None => 0,
            }
        },
        None => 0,
    }
}

fn cap(text: &str, pat: &str) -> (r: Option<Vec<u64>>)
    ensures
        match r {
            Some(v) => cap_spec(text@, pat@) == Some(v@.map_values(|n: u64| n as nat)),
            None => cap_spec(text@, pat@) is None,
        },
{
    let groups = match first_groups(pat, text) {
        Some(g) => g,
        None => return None,
    };
    let ghost gv = groups@.map_values(|g: Option<String>| match g {
        Some(s) => Some(s@),
        None => None,
    });
    let mut out: Vec<u64> = Vec::new();
    let mut i: usize = 0;
    while i < groups.len()
        invariant
            i <= groups@.len(),
            gv == groups@.map_values(|g: Option<String>| match g {
                Some(s) => Some(s@),
                None => None,
            }),
            out@.map_values(|n: u64| n as nat) == gv.take(i as int).map_values(|g: Option<Seq<char>>| number_or_zero(g)),
        decreases groups@.len() - i,
    {
        let n = number_of(&groups[i]);
        let ghost before = out@.map_values(|n: u64| n as nat);
        out.push(n);
        assert(out@.map_values(|n: u64| n as nat) =~= before.push(n as nat));
        assert(gv.take(i + 1).map_values(|g: Option<Seq<char>>| number_or_zero(g)) =~= gv.take(i as int).map_values(
            |g: Option<Seq<char>>| number_or_zero(g),
        ).push(number_or_zero(gv[i as int])));
        i += 1;
    }
    assert(gv.take(i as int) =~= gv);
    Some(out)
}

fn sum_caps(text: &str, pat: &str) -> (n: u64)
    ensures
        n == sum_spec(text@, pat@),
{
    let gs = match captures(pat, text) {
        Some(g) => g,
        None => return 0,
    };
    let ghost gv = gs@.map_values(|s: String| s@);
    let mut total: u64 = 0;
    let mut i: usize = 0;
    while i < gs.len()
        invariant
            i <= gs@.len(),
            gv == gs@.map_values(|s: String| s@),
            total == number_sum(gv.take(i as int)),
        decreases gs@.len() - i,
    {
        assert(gv.take(i + 1).drop_last() =~= gv.take(i as int));
        let c = chars_of(gs[i].as_str());
        let n = match parse_u64(c.as_slice()) {
            Some(n) => n,
            None => 0,
        };
        total = total.saturating_add(n);
        i += 1;
    }
    assert(gv.take(i as int) =~= gv);
    total
}

/// The lines of `output` that start with `prefix`.
pub open spec fn lines_starting(ls: Seq<Seq<char>>, prefix: Seq<char>) -> nat
    decreases ls.len(),
{
    if ls.len() == 0 {
        0
    } else {
        lines_starting(ls.drop_last(), prefix) + if prefix.is_prefix_of(ls.last()) { 1nat } else { 0nat }
    }
}

fn count_lines_starting(output: &str, prefix: &str) -> (n: u64)
    ensures
        n == lines_starting(lines(output@), prefix@),
{
    let c = chars_of(output);
    let ls = split_lines(c.as_slice());
    assert(views(ls@) =~= lines(output@));
    let ghost lv = lines(output@);
    let mut n: u64 = 0;
    let mut i: usize = 0;
    while i < ls.len()
        invariant
            i <= ls@.len(),
            views(ls@) == lv,
            n == lines_starting(lv.take(i as int), prefix@),
            n <= i,
        decreases ls@.len() - i,
    {
        assert(lv.take(i + 1).drop_last() =~= lv.take(i as int));
        assert(ls@[i as int]@ == lv[i as int]);
        if starts_with_str(ls[i].as_slice(), prefix) {
            n = n + 1;
        }
        i += 1;
    }
    assert(lv.take(i as int) =~= lv);
    n
}

pub open spec fn sat_add(a: nat, b: nat) -> nat {
    if a + b > u64::MAX { u64::MAX as nat } else { a + b }
}

pub open spec fn cap_at(c: Seq<nat>, i: int) -> nat {
    if i < c.len() { c[i] } else { 0 }
}

/// The passed, failed and skipped counts read from a suite's output by its
/// flavor (a failing exit with no counts read counts as one failure).
pub open spec fn counts_spec(flavor: Seq<char>, exit_code: i32, output: Seq<char>) -> (nat, nat, nat) {
    let failed0: nat = if exit_code == 0 { 0 } else { 1 };
    if flavor == "cargo"@ {
        match cap_spec(output, r"test result: \w+\. (\d+) passed; (\d+) failed; (\d+) ignored"@) {
            Some(c) => (cap_at(c, 0), cap_at(c, 1), cap_at(c, 2)),
            None => (0, failed0, 0),
        }
    } else if flavor == "pytest"@ {
        (
            sum_spec(output, r"(\d+) passed"@),
            sat_add(sum_spec(output, r"(\d+) failed"@), sum_spec(output, r"(\d+) errors?"@)),
            sum_spec(output, r"(\d+) skipped"@),
        )
    } else if flavor == "node"@ {
        (
            sat_add(sum_spec(output, r"(\d+) passed"@), sum_spec(output, r"(\d+) passing"@)),
            sat_add(sum_spec(output, r"(\d+) failed"@), sum_spec(output, r"(\d+) failing"@)),
            sat_add(sum_spec(output, r"(\d+) skipped"@), sum_spec(output, r"(\d+) pending"@)),
        )
    } else if flavor == "go"@ {
        let failed = lines_starting(lines(output), "FAIL"@);
        (lines_starting(lines(output), "ok "@), if failed == 0 && exit_code != 0 { 1 } else { failed }, 0)
    } else if flavor == "rspec"@ {
        match cap_spec(output, r"(\d+) examples?, (\d+) failures?(?:, (\d+) pending)?"@) {
            Some(c) => (
                if cap_at(c, 0) >= cap_at(c, 1) { (cap_at(c, 0) - cap_at(c, 1)) as nat } else { 0 },
                cap_at(c, 1),
                cap_at(c, 2),
            ),
            None => (0, failed0, 0),
        }
    } else if flavor == "swift"@ {
        (sum_spec(output, r"(\d+) tests? passed"@), sum_spec(output, r"(\d+) failures?"@), 0)
    } else {
        (if exit_code == 0 { 1 } else { 0 }, failed0, 0)
    }
}

fn at(c: &Vec<u64>, i: usize) -> (n: u64)
    ensures
        n == cap_at(c@.map_values(|n: u64| n as nat), i as int),
{
    if i < c.len() { c[i] } else { 0 }
}

fn counts(flavor: &str, exit_code: i32, output: &str) -> (r: (u64, u64, u64))
    ensures
        (r.0 as nat, r.1 as nat, r.2 as nat) == counts_spec(flavor@, exit_code, output@),
{
    let f = chars_of(flavor);
    let x = f.as_slice();
    let failed0: u64 = if exit_code == 0 { 0 } else { 1 };
    if chars_eq_str(x, "cargo") {
        match cap(output, r"test result: \w+\. (\d+) passed; (\d+) failed; (\d+) ignored") {
            Some(c) => (at(&c, 0), at(&c, 1), at(&c, 2)),
            None => (0, failed0, 0),
        }
    } else if chars_eq_str(x, "pytest") {
        (
            sum_caps(output, r"(\d+) passed"),
            sum_caps(output, r"(\d+) failed").saturating_add(sum_caps(output, r"(\d+) errors?")),
            sum_caps(output, r"(\d+) skipped"),
        )
    } else if chars_eq_str(x, "node") {
        (
            sum_caps(output, r"(\d+) passed").saturating_add(sum_caps(output, r"(\d+) passing")),
            sum_caps(output, r"(\d+) failed").saturating_add(sum_caps(output, r"(\d+) failing")),
            sum_caps(output, r"(\d+) skipped").saturating_add(sum_caps(output, r"(\d+) pending")),
        )
    } else if chars_eq_str(x, "go") {
        let passed = count_lines_starting(output, "ok ");
        let failed = count_lines_starting(output, "FAIL");
        (passed, if failed == 0 && exit_code != 0 { 1 } else { failed }, 0)
    } else if chars_eq_str(x, "rspec") {
        match cap(output, r"(\d+) examples?, (\d+) failures?(?:, (\d+) pending)?") {
            Some(c) => (at(&c, 0).saturating_sub(at(&c, 1)), at(&c, 1), at(&c, 2)),
            None => (0, failed0, 0),
        }
    } else if chars_eq_str(x, "swift") {
        (sum_caps(output, r"(\d+) tests? passed"), sum_caps(output, r"(\d+) failures?"), 0)
    } else {
        (if exit_code == 0 { 1 } else { 0 }, failed0, 0)
    }
}

/// Read a finished suite run: the counts its flavor's output gives, and the
/// output with secrets redacted. The run's duration is set by the caller.
pub fn parse_output(flavor: &str, command: &str, exit_code: i32, output: &str, timestamp: u64) -> (run: TestRun)
    ensures
        (run.passed as nat, run.failed as nat, run.skipped as nat) == counts_spec(flavor@, exit_code, output@),
        run.command@ == command@,
        run.flavor@ == flavor@,
        run.exit_code == exit_code,
        run.duration_ms == 0,
        run.raw_output@ == scrub_spec(output@),
        run.timestamp == timestamp,
{
    let (passed, failed, skipped) = counts(flavor, exit_code, output);
    TestRun {
        command: String::from_str(command),
        flavor: String::from_str(flavor),
        passed,
        failed,
        skipped,
        exit_code,
        duration_ms: 0,
        raw_output: redact_text(output),
        timestamp,
    }
}

// ---------------------------------------------------------------------------
// Context for the agent
// ---------------------------------------------------------------------------

pub open spec fn bool_word(b: bool) -> Seq<char> {
    if b { "true"@ } else { "false"@ }
}

pub open spec fn int_text(n: int) -> Seq<char> {
    if n < 0 { seq!['-'] + decimal((-n) as nat) } else { decimal(n as nat) }
}

/// The note on the latest diff.
pub open spec fn diff_note_spec(d: TestDiff) -> Seq<char> {
    "Latest diff: new_failures="@ + int_text(d.net_new_failures as int) + ", fixed_failures="@
        + int_text(d.net_fixed_failures as int) + ", regression="@ + bool_word(d.has_regression) + "."@
}

fn int_chars(n: i64) -> (out: Vec<char>)
    ensures
        out@ == int_text(n as int),
{
    if n < 0 {
        let m: u64 = if n == i64::MIN { 9223372036854775808u64 } else { (-n) as u64 };
        let mut v = vec!['-'];
        let d = decimal_string(m);
        extend_chars(&mut v, d.as_slice());
        assert(v@ =~= seq!['-'] + decimal((-(n as int)) as nat));
        v
    } else {
        decimal_string(n as u64)
    }
}

fn bool_chars(b: bool) -> (s: &'static str)
    ensures
        s@ == bool_word(b),
{
    if b { "true" } else { "false" }
}

/// The note on the latest diff, for the baseline context.
pub fn diff_note(d: &TestDiff) -> (out: String)
    ensures
        out@ == diff_note_spec(*d),
{
    let mut v = chars_of("Latest diff: new_failures=");
    let a = int_chars(d.net_new_failures);
    extend_chars(&mut v, a.as_slice());
    extend_str(&mut v, ", fixed_failures=");
    let b = int_chars(d.net_fixed_failures);
    extend_chars(&mut v, b.as_slice());
    extend_str(&mut v, ", regression=");
    extend_str(&mut v, bool_chars(d.has_regression));
    extend_str(&mut v, ".");
    string_of(v.as_slice())
}

/// The baseline context given to the agent: the baseline's command, flavor
/// and counts, whether the suite is green, and the note on the latest diff.
pub open spec fn baseline_context_spec(run: TestRun, latest: Seq<char>) -> Seq<char> {
    "<test_harness>Baseline command: "@ + run.command@ + ". Flavor: "@ + run.flavor@ + ". Passed: "@
        + decimal(run.passed as nat) + ". Failed: "@ + decimal(run.failed as nat) + ". Skipped: "@
        + decimal(run.skipped as nat) + ". Suite green: "@ + bool_word(run.failed == 0 && run.exit_code == 0) + ". "@
        + latest
        + " Do not introduce additional failures; fix regressions before claiming completion.</test_harness>"@
}

pub fn baseline_context(run: &TestRun, latest: &str) -> (out: String)
    ensures
        out@ == baseline_context_spec(*run, latest@),
{
    let mut v = chars_of("<test_harness>Baseline command: ");
    extend_str(&mut v, run.command.as_str());
    extend_str(&mut v, ". Flavor: ");
    extend_str(&mut v, run.flavor.as_str());
    extend_str(&mut v, ". Passed: ");
    let p = decimal_string(run.passed);
    extend_chars(&mut v, p.as_slice());
    extend_str(&mut v, ". Failed: ");
    let f = decimal_string(run.failed);
    extend_chars(&mut v, f.as_slice());
    extend_str(&mut v, ". Skipped: ");
    let s = decimal_string(run.skipped);
    extend_chars(&mut v, s.as_slice());
    extend_str(&mut v, ". Suite green: ");
    extend_str(&mut v, bool_chars(run.failed == 0 && run.exit_code == 0));
    extend_str(&mut v, ". ");
    extend_str(&mut v, latest);
    extend_str(&mut v, " Do not introduce additional failures; fix regressions before claiming completion.</test_harness>");
    string_of(v.as_slice())
}

/// The baseline context when there is no baseline yet.
pub const NO_BASELINE: &'static str = "<test_harness>No test baseline exists yet.</test_harness>";

/// The baseline context when the baseline file could not be read as a run.
pub const BAD_BASELINE: &'static str = "<test_harness>Test baseline file exists but could not be parsed.</test_harness>";

proof fn lemma_number_sum_bound(gs: Seq<Seq<char>>)
    ensures
        number_sum(gs) <= u64::MAX,
    decreases gs.len(),
{
    if gs.len() > 0 {
        lemma_number_sum_bound(gs.drop_last());
    }
}

proof fn lemma_sum_bound(text: Seq<char>, pat: Seq<char>)
    ensures
        sum_spec(text, pat) <= u64::MAX,
{
    if let Some(gs) = regex_captures(pat, text) {
        lemma_number_sum_bound(gs);
    }
}

/// A `node` suite's failures are the numbers reported before "failed" and
/// before "failing" (mocha), added: neither spelling is dropped, the count
/// never exceeds their sum, and output that only says "N failing" reports N
/// failures. Its passes count "passed" and "passing" the same way.
pub proof fn law_node_counts_both_spellings(exit_code: i32, output: Seq<char>)
    ensures
        counts_spec("node"@, exit_code, output).1 >= sum_spec(output, r"(\d+) failing"@),
        counts_spec("node"@, exit_code, output).1 >= sum_spec(output, r"(\d+) failed"@),
        counts_spec("node"@, exit_code, output).1 <= sum_spec(output, r"(\d+) failed"@) + sum_spec(output, r"(\d+) failing"@),
        sum_spec(output, r"(\d+) failed"@) == 0 ==> counts_spec("node"@, exit_code, output).1 == sum_spec(output, r"(\d+) failing"@),
        counts_spec("node"@, exit_code, output).0 >= sum_spec(output, r"(\d+) passing"@),
        counts_spec("node"@, exit_code, output).0 >= sum_spec(output, r"(\d+) passed"@),
{
    reveal_strlit("node");
    reveal_strlit("cargo");
    reveal_strlit("pytest");
    lemma_sum_bound(output, r"(\d+) failing"@);
    lemma_sum_bound(output, r"(\d+) failed"@);
    lemma_sum_bound(output, r"(\d+) passing"@);
    lemma_sum_bound(output, r"(\d+) passed"@);
    assert("node"@ != "cargo"@) by {
        assert("node"@.len() != "cargo"@.len());
    }
    assert("node"@ != "pytest"@) by {
        assert("node"@.len() != "pytest"@.len());
    }
}

/// A diff makes the harness fail exactly when it shows a regression, and
/// the new and fixed failure counts are each other's negation.
pub proof fn law_diff_is_antisymmetric(d: TestDiff, baseline: TestRun, current: TestRun)
    requires
        d.net_new_failures == current.failed - baseline.failed,
        d.net_fixed_failures == baseline.failed - current.failed,
        d.has_regression == (current.failed > baseline.failed),
    ensures
        d.net_new_failures == -d.net_fixed_failures,
        d.has_regression <==> d.net_new_failures > 0,
        d.net_new_failures == 0 <==> current.failed == baseline.failed,
{
}

} // verus!
