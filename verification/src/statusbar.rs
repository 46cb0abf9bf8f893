//! The opt-in bottom status bar: the text it shows, the escape sequences that
//! reserve, redraw and release its row, and the line counts it reports from
//! `git diff --numstat`.
use vstd::prelude::*;
use crate::text::{
    parse_u64, parse_unsigned_spec, chars_of, decimal, decimal_string, extend_chars, extend_str, find_sub, find_sub_exec,
    slice_chars, string_of, trim, trim_chars, truncate_ellipsis, truncate_with_ellipsis,
};
use crate::markdown::{lines, split_lines};
use crate::ui::{cyan_spec, grey_spec, status_bar};

verus! {

broadcast use vstd::string::group_string_axioms;

/// The bar's state: whether it owns the bottom row, and the terminal height
/// its scroll region was set for.
pub struct StatusBar {
    active: bool,
    height: u16,
}

/// The bar is on when stdout is a terminal and `BISCUITS_STATUSBAR` is one of
/// `1`, `on`, `true`, `yes`.
pub open spec fn enabled_spec(is_tty: bool, value: Option<Seq<char>>) -> bool {
    is_tty && match value {
        Some(v) => v == "1"@ || v == "on"@ || v == "true"@ || v == "yes"@,
        None => false,
    }
}

/// Whether the status bar is enabled, given whether stdout is a terminal and
/// the value of `BISCUITS_STATUSBAR`.
pub fn enabled(is_tty: bool, value: Option<&str>) -> (b: bool)
    ensures
        b == enabled_spec(is_tty, match value { Some(v) => Some(v@), None => None }),
{
    if !is_tty {
        return false;
    }
    match value {
        Some(v) => {
            let c = chars_of(v);
            crate::text::chars_eq_str(c.as_slice(), "1") || crate::text::chars_eq_str(c.as_slice(), "on")
                || crate::text::chars_eq_str(c.as_slice(), "true") || crate::text::chars_eq_str(
                c.as_slice(),
                "yes",
            )
        },
        None => false,
    }
}

/// Scroll region rows 1..height-1, leaving the last row for the bar.
pub open spec fn region_seq(height: u16) -> Seq<char> {
    "\x1b[1;"@ + decimal((height - 1) as nat) + "r"@
}

/// `content` cut to `width` columns, `…` marking a cut.
pub open spec fn fit_spec(content: Seq<char>, width: nat) -> Seq<char> {
    truncate_ellipsis(content, width)
}

fn region_chars(height: u16) -> (out: Vec<char>)
    requires
        height >= 1,
    ensures
        out@ == region_seq(height),
{
    let mut v = chars_of("\x1b[1;");
    let d = decimal_string((height - 1) as u64);
    extend_chars(&mut v, d.as_slice());
    extend_str(&mut v, "r");
    v
}

impl StatusBar {
    /// An active bar has a row to itself and at least two above it.
    #[verifier::type_invariant]
    spec fn wf(&self) -> bool {
        self.active ==> self.height >= 3
    }

    /// The bar for a terminal of `height` rows: active when enabled and the
    /// terminal has at least three rows.
    pub fn new(enabled: bool, height: u16) -> (bar: StatusBar)
        ensures
            bar.is_active() == (enabled && height >= 3),
            bar.rows() == (if enabled { height } else { 0 }),
    {
        if !enabled {
            return StatusBar { active: false, height: 0 };
        }
        StatusBar { active: height >= 3, height }
    }

    pub closed spec fn is_active(&self) -> bool {
        self.active
    }

    pub closed spec fn rows(&self) -> u16 {
        self.height
    }

    pub fn active(&self) -> (b: bool)
        ensures
            b == self.is_active(),
    {
        self.active
    }

    /// What to write when the bar starts: clear the screen, reserve the bottom
    /// row, home the cursor. Nothing when inactive.
    pub fn setup_sequence(&self) -> (out: String)
        ensures
            out@ == (if self.is_active() {
                "\x1b[2J"@ + region_seq(self.rows()) + "\x1b[H"@
            } else {
                Seq::empty()
            }),
    {
        proof {
            use_type_invariant(self);
        }
        if !self.active {
            return String::new();
        }
        let mut v = chars_of("\x1b[2J");
        let r = region_chars(self.height);
        extend_chars(&mut v, r.as_slice());
        extend_str(&mut v, "\x1b[H");
        string_of(v.as_slice())
    }

    /// Redraw the bar with `content` on a terminal of `width` × `height`; a
    /// new height re-arms the scroll region. Returns what to write, nothing
    /// when the bar is inactive or the terminal has fewer than three rows.
    pub fn set(&mut self, content: &str, width: u16, height: u16, color: bool) -> (out: String)
        ensures
            final(self).is_active() == old(self).is_active(),
            !old(self).is_active() || height < 3 ==> out@.len() == 0 && final(self).rows() == old(self).rows(),
            old(self).is_active() && height >= 3 ==> {
                &&& final(self).rows() == height
                &&& out@ == (if height != old(self).rows() { region_seq(height) } else { Seq::empty() })
                    + "\x1b7\x1b["@ + decimal(height as nat) + ";1H\x1b[2K"@ + cyan_spec("●"@, color) + " "@
                    + grey_spec(fit_spec(content@, width as nat), color) + "\x1b8"@
            },
    {
        if !self.active || height < 3 {
            return String::new();
        }
        let mut v: Vec<char> = Vec::new();
        if height != self.height {
            self.height = height;
            v = region_chars(height);
        }
        let ghost head = v@;
        let c = chars_of(content);
        let line = truncate_with_ellipsis(c.as_slice(), width as usize);
        let line_s = string_of(line.as_slice());
        let bar = status_bar(line_s.as_str(), color);
        extend_str(&mut v, "\x1b7\x1b[");
        let d = decimal_string(height as u64);
        extend_chars(&mut v, d.as_slice());
        extend_str(&mut v, ";1H\x1b[2K");
        extend_str(&mut v, bar.as_str());
        extend_str(&mut v, "\x1b8");
        string_of(v.as_slice())
    }

    /// What to write when the bar goes away: reset the scroll region and clear
    /// the bar row. Nothing when inactive.
    pub fn teardown_sequence(&self) -> (out: String)
        ensures
            out@ == (if self.is_active() {
                "\x1b[r\x1b["@ + decimal(self.rows() as nat) + ";1H\x1b[2K"@
            } else {
                Seq::empty()
            }),
    {
        if !self.active {
            return String::new();
        }
        let mut v = chars_of("\x1b[r\x1b[");
        let d = decimal_string(self.height as u64);
        extend_chars(&mut v, d.as_slice());
        extend_str(&mut v, ";1H\x1b[2K");
        string_of(v.as_slice())
    }
}

/// Truncate `content` to `width` columns (a character count).
pub fn fit(content: &str, width: usize) -> (out: String)
    ensures
        out@ == fit_spec(content@, width as nat),
{
    let c = chars_of(content);
    let t = truncate_with_ellipsis(c.as_slice(), width);
    string_of(t.as_slice())
}

/// The bar text: segments separated by "  ·  ".
pub open spec fn format_bar_spec(mode: Seq<char>, ultracode: bool, turns: nat, tokens: nat, added: nat, removed: nat) -> Seq<char> {
    "mode "@ + mode + (if ultracode { "  ·  ultracode"@ } else { Seq::empty() }) + "  ·  "@ + decimal(turns)
        + " turns"@ + "  ·  "@ + decimal(tokens) + " tok"@ + "  ·  +"@ + decimal(added) + "/-"@
        + decimal(removed)
}

/// Build the bar text: mode, ultracode when on, turns, tokens and lines
/// changed.
pub fn format_bar(mode: &str, ultracode: bool, turns: u64, tokens: u64, added: usize, removed: usize) -> (out: String)
    ensures
        out@ == format_bar_spec(mode@, ultracode, turns as nat, tokens as nat, added as nat, removed as nat),
{
    let mut v = chars_of("mode ");
    extend_str(&mut v, mode);
    let ghost m = v@;
    if ultracode {
        extend_str(&mut v, "  ·  ultracode");
    } else {
        assert(v@ =~= m + Seq::<char>::empty());
    }
    extend_str(&mut v, "  ·  ");
    let d = decimal_string(turns);
    extend_chars(&mut v, d.as_slice());
    extend_str(&mut v, " turns");
    extend_str(&mut v, "  ·  ");
    let d = decimal_string(tokens);
    extend_chars(&mut v, d.as_slice());
    extend_str(&mut v, " tok");
    extend_str(&mut v, "  ·  +");
    let d = decimal_string(added as u64);
    extend_chars(&mut v, d.as_slice());
    extend_str(&mut v, "/-");
    let d = decimal_string(removed as u64);
    extend_chars(&mut v, d.as_slice());
    string_of(v.as_slice())
}

// ---------------------------------------------------------------------------
// git diff --numstat
// ---------------------------------------------------------------------------

/// `usize::from_str`: an optional `+`, then at least one digit, with a value
/// that fits.
pub open spec fn parse_usize_spec(s: Seq<char>) -> Option<nat> {
    parse_unsigned_spec(s, usize::MAX as nat)
}

/// Parse a decimal `usize` as `str::parse::<usize>` does.
pub fn parse_usize(s: &[char]) -> (r: Option<usize>)
    ensures
        match r {
            Some(n) => parse_usize_spec(s@) == Some(n as nat),
            None => parse_usize_spec(s@) is None,
        },
{
    match parse_u64(s) {
        Some(n) => {
            if n <= usize::MAX as u64 {
                Some(n as usize)
            } else {
                None
            }
        },
        None => None,
    }
}

/// The first two tab-separated fields of a numstat line.
pub open spec fn numstat_fields(l: Seq<char>) -> (Seq<char>, Option<Seq<char>>) {
    let t = find_sub(l, seq!['\t'], 0);
    if t < 0 {
        (l, None)
    } else {
        let rest = l.skip(t + 1);
        let u = find_sub(rest, seq!['\t'], 0);
        (l.take(t), Some(if u < 0 { rest } else { rest.take(u) }))
    }
}

pub open spec fn count_or_zero(o: Option<nat>) -> nat {
    match o {
        Some(n) => n,
        None => 0,
    }
}

/// Lines added on a numstat line: its first field, 0 when not a number.
pub open spec fn line_added(l: Seq<char>) -> nat {
    count_or_zero(parse_usize_spec(trim(numstat_fields(l).0)))
}

/// Lines removed on a numstat line: its second field, 0 when absent or not a
/// number.
pub open spec fn line_removed(l: Seq<char>) -> nat {
    match numstat_fields(l).1 {
        Some(f) => count_or_zero(parse_usize_spec(trim(f))),
        None => 0,
    }
}

pub open spec fn total_added(ls: Seq<Seq<char>>) -> nat
    decreases ls.len(),
{
    if ls.len() == 0 { 0 } else { total_added(ls.drop_last()) + line_added(ls.last()) }
}

pub open spec fn total_removed(ls: Seq<Seq<char>>) -> nat
    decreases ls.len(),
{
    if ls.len() == 0 { 0 } else { total_removed(ls.drop_last()) + line_removed(ls.last()) }
}

proof fn lemma_totals_prefix(ls: Seq<Seq<char>>, k: int)
    requires
        0 <= k <= ls.len(),
    ensures
        total_added(ls.take(k)) <= total_added(ls),
        total_removed(ls.take(k)) <= total_removed(ls),
    decreases ls.len(),
{
    if k < ls.len() {
        assert(ls.drop_last().take(k) =~= ls.take(k));
        lemma_totals_prefix(ls.drop_last(), k);
    } else {
        assert(ls.take(k) =~= ls);
    }
}

fn numstat_line(l: &[char]) -> (r: (usize, usize))
    ensures
        r.0 == line_added(l@),
        r.1 == line_removed(l@),
{
    let tab: Vec<char> = vec!['\t'];
    assert(tab@ =~= seq!['\t']);
    let n = l.len();
    match find_sub_exec(l, tab.as_slice(), 0) {
        None => {
            let f = trim_chars(l);
            let a = match parse_usize(f.as_slice()) {
                Some(n) => n,
                None => 0,
            };
            (a, 0)
        },
        Some(t) => {
            let first = slice_chars(l, 0, t);
            let rest = slice_chars(l, t + 1, n);
            assert(rest@ =~= l@.skip(t + 1));
            let second = match find_sub_exec(rest.as_slice(), tab.as_slice(), 0) {
                None => slice_chars(rest.as_slice(), 0, rest.len()),
                Some(u) => slice_chars(rest.as_slice(), 0, u),
            };
            proof {
                if find_sub(rest@, seq!['\t'], 0) < 0 {
                    assert(second@ =~= rest@);
                }
            }
            let f1 = trim_chars(first.as_slice());
            let f2 = trim_chars(second.as_slice());
            let a = match parse_usize(f1.as_slice()) {
                Some(n) => n,
                None => 0,
            };
            let r = match parse_usize(f2.as_slice()) {
                Some(n) => n,
                None => 0,
            };
            (a, r)
        },
    }
}

/// Uncommitted lines added and removed, summed over the lines of
/// `git diff --numstat` output.
pub fn git_lines_changed(numstat: &str) -> (r: (usize, usize))
    requires
        total_added(lines(numstat@)) <= usize::MAX,
        total_removed(lines(numstat@)) <= usize::MAX,
    ensures
        r.0 == total_added(lines(numstat@)),
        r.1 == total_removed(lines(numstat@)),
{
    let s = chars_of(numstat);
    let ls = split_lines(s.as_slice());
    let ghost all = ls@.map_values(|v: Vec<char>| v@);
    let mut added: usize = 0;
    let mut removed: usize = 0;
    let mut i: usize = 0;
    while i < ls.len()
        invariant
            i <= ls@.len(),
            all == ls@.map_values(|v: Vec<char>| v@),
            all == lines(numstat@),
            total_added(all) <= usize::MAX,
            total_removed(all) <= usize::MAX,
            added == total_added(all.take(i as int)),
            removed == total_removed(all.take(i as int)),
        decreases ls@.len() - i,
    {
        assert(all.take(i + 1).drop_last() =~= all.take(i as int));
        assert(all[i as int] == ls@[i as int]@);
        proof {
            lemma_totals_prefix(all, i + 1);
        }
        let (a, r) = numstat_line(ls[i].as_slice());
        added = added + a;
        removed = removed + r;
        i += 1;
    }
    assert(all.take(i as int) =~= all);
    (added, removed)
}

} // verus!
