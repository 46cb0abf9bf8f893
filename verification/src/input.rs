//! The editor core behind the bordered input box: a character buffer with a
//! cursor expressed as a character index, the renderer that wraps the buffer
//! into a framed, auto-expanding box, and the decoder for the escape sequences
//! a terminal sends for arrow / Home / End / Delete keys.
//!
//! Nothing here touches a terminal; the raw-mode reader lives with the
//! program and hands every keystroke to these functions.
use vstd::prelude::*;
use crate::text::{chars_of, extend_chars, is_whitespace, is_ws, repeat, repeat_chars, slice_chars, string_of};

verus! {

/// The minimum number of content rows the box ever shows.
pub const MIN_ROWS: usize = 2;
/// The maximum number of content rows before the view starts scrolling.
pub const MAX_ROWS: usize = 10;
/// The smallest total width the box is drawn at.
pub const MIN_WIDTH: usize = 5;

/// The abstract state of an editor: its text and the cursor position.
pub ghost struct EditorView {
    pub text: Seq<char>,
    pub cursor: nat,
}

impl EditorView {
    pub open spec fn wf(self) -> bool {
        self.cursor <= self.text.len()
    }

    pub open spec fn insert_char(self, c: char) -> EditorView {
        EditorView { text: self.text.insert(self.cursor as int, c), cursor: self.cursor + 1 }
    }

    pub open spec fn insert_str(self, s: Seq<char>) -> EditorView {
        EditorView {
            text: self.text.take(self.cursor as int) + s + self.text.skip(self.cursor as int),
            cursor: self.cursor + s.len(),
        }
    }

    pub open spec fn backspace(self) -> EditorView {
        if self.cursor == 0 {
            self
        } else {
            EditorView {
                text: self.text.remove(self.cursor - 1),
                cursor: (self.cursor - 1) as nat,
            }
        }
    }

    pub open spec fn delete(self) -> EditorView {
        if self.cursor >= self.text.len() {
            self
        } else {
            EditorView { text: self.text.remove(self.cursor as int), cursor: self.cursor }
        }
    }

    pub open spec fn move_left(self) -> EditorView {
        if self.cursor > 0 {
            EditorView { cursor: (self.cursor - 1) as nat, ..self }
        } else {
            self
        }
    }

    pub open spec fn move_right(self) -> EditorView {
        if self.cursor < self.text.len() {
            EditorView { cursor: self.cursor + 1, ..self }
        } else {
            self
        }
    }

    pub open spec fn move_home(self) -> EditorView {
        EditorView { cursor: 0, ..self }
    }

    pub open spec fn move_end(self) -> EditorView {
        EditorView { cursor: self.text.len(), ..self }
    }

    /// Ctrl-W: remove the whitespace run directly before the cursor and then
    /// the run of non-whitespace before that.
    pub open spec fn delete_word(self) -> EditorView {
        let start = word_start(self.text, self.cursor as int);
        EditorView {
            text: self.text.take(start) + self.text.skip(self.cursor as int),
            cursor: start as nat,
        }
    }

    pub open spec fn clear(self) -> EditorView {
        EditorView { text: Seq::empty(), cursor: 0 }
    }
}

/// Walk left from `i` over whitespace.
pub open spec fn skip_back_ws(t: Seq<char>, i: int) -> int
    decreases i,
{
    if i > 0 && is_ws(t[i - 1]) {
        skip_back_ws(t, i - 1)
    } else {
        i
    }
}

/// Walk left from `i` over non-whitespace.
pub open spec fn skip_back_word(t: Seq<char>, i: int) -> int
    decreases i,
{
    if i > 0 && !is_ws(t[i - 1]) {
        skip_back_word(t, i - 1)
    } else {
        i
    }
}

/// Where Ctrl-W's deletion starts for a cursor at `i`.
pub open spec fn word_start(t: Seq<char>, i: int) -> int {
    skip_back_word(t, skip_back_ws(t, i))
}

proof fn lemma_skip_back_bounds(t: Seq<char>, i: int)
    requires
        0 <= i <= t.len(),
    ensures
        0 <= skip_back_ws(t, i) <= i,
        0 <= skip_back_word(t, i) <= i,
        0 <= word_start(t, i) <= i,
    decreases i,
{
    if i > 0 {
        lemma_skip_back_bounds(t, i - 1);
    }
    let j = skip_back_ws(t, i);
    if 0 <= j <= i {
        lemma_skip_back_word_bound(t, j);
    }
}

proof fn lemma_skip_back_word_bound(t: Seq<char>, i: int)
    requires
        0 <= i <= t.len(),
    ensures
        0 <= skip_back_word(t, i) <= i,
    decreases i,
{
    if i > 0 {
        lemma_skip_back_word_bound(t, i - 1);
    }
}

/// A text editor: a buffer plus a cursor expressed as a character index, so
/// every operation stays on character boundaries.
pub struct InputEditor {
    buf: Vec<char>,
    cursor: usize,
}

impl View for InputEditor {
    type V = EditorView;

    closed spec fn view(&self) -> EditorView {
        EditorView { text: self.buf@, cursor: self.cursor as nat }
    }
}

impl InputEditor {
    #[verifier::type_invariant]
    closed spec fn inv(self) -> bool {
        self.cursor <= self.buf@.len()
    }

    pub fn new() -> (e: Self)
        ensures
            e@.text == Seq::<char>::empty(),
            e@.cursor == 0,
    {
        InputEditor { buf: Vec::new(), cursor: 0 }
    }

    /// The current text.
    pub fn text(&self) -> (s: String)
        ensures
            s@ == self@.text,
    {
        string_of(self.buf.as_slice())
    }

    pub fn is_empty(&self) -> (b: bool)
        ensures
            b == (self@.text.len() == 0),
    {
        self.buf.len() == 0
    }

    /// The cursor position as a character index.
    pub fn cursor(&self) -> (c: usize)
        ensures
            c == self@.cursor,
            self@.wf(),
    {
        proof {
            use_type_invariant(self);
        }
        self.cursor
    }

    /// Insert one character at the cursor and advance the cursor past it.
    pub fn insert_char(&mut self, c: char)
        ensures
            final(self)@ == old(self)@.insert_char(c),
    {
        proof {
            use_type_invariant(&*self);
        }
        let at = self.cursor;
        let mut b = slice_chars(self.buf.as_slice(), 0, self.buf.len());
        assert(b@ =~= self.buf@);
        b.insert(at, c);
        let len = b.len();
        assert(at < len);
        self.buf = b;
        self.cursor = at + 1;
    }

    /// Insert a whole string at the cursor.
    pub fn insert_str(&mut self, s: &str)
        ensures
            final(self)@ == old(self)@.insert_str(s@),
    {
        proof {
            use_type_invariant(&*self);
        }
        let cs = chars_of(s);
        let ghost start = self@;
        assert(start.text.take(start.cursor as int) + cs@.take(0) + start.text.skip(start.cursor as int) =~= start.text);
        let mut i: usize = 0;
        while i < cs.len()
            invariant
                i <= cs@.len(),
                cs@ == s@,
                start.cursor <= start.text.len(),
                self@ == start.insert_str(cs@.take(i as int)),
            decreases cs@.len() - i,
        {
            proof {
                use_type_invariant(&*self);
            }
            let ghost before = self@;
            self.insert_char(cs[i]);
            proof {
                let p = cs@.take(i as int);
                let q = cs@.take(i + 1);
                assert(q =~= p.push(cs@[i as int]));
                let t = start.text;
                let c = start.cursor as int;
                assert(before.text.insert(c + p.len(), cs@[i as int]) =~= t.take(c) + q + t.skip(c));
            }
            i += 1;
        }
        proof {
            use_type_invariant(&*self);
            assert(cs@.take(cs@.len() as int) =~= cs@);
        }
    }

    /// Delete the character before the cursor (Backspace). No-op at the start.
    pub fn backspace(&mut self)
        ensures
            final(self)@ == old(self)@.backspace(),
    {
        proof {
            use_type_invariant(&*self);
        }
        if self.cursor == 0 {
            return;
        }
        let at = self.cursor - 1;
        let mut b = slice_chars(self.buf.as_slice(), 0, self.buf.len());
        assert(b@ =~= self.buf@);
        b.remove(at);
        self.cursor = at;
        self.buf = b;
    }

    /// Delete the character at the cursor (Delete). No-op at the end.
    pub fn delete(&mut self)
        ensures
            final(self)@ == old(self)@.delete(),
    {
        proof {
            use_type_invariant(&*self);
        }
        if self.cursor >= self.buf.len() {
            return;
        }
        let at = self.cursor;
        let mut b = slice_chars(self.buf.as_slice(), 0, self.buf.len());
        assert(b@ =~= self.buf@);
        b.remove(at);
        self.buf = b;
    }

    pub fn move_left(&mut self)
        ensures
            final(self)@ == old(self)@.move_left(),
    {
        proof {
            use_type_invariant(&*self);
        }
        if self.cursor > 0 {
            self.cursor = self.cursor - 1;
        }
    }

    pub fn move_right(&mut self)
        ensures
            final(self)@ == old(self)@.move_right(),
    {
        if self.cursor < self.buf.len() {
            self.cursor = self.cursor + 1;
        }
    }

    pub fn move_home(&mut self)
        ensures
            final(self)@ == old(self)@.move_home(),
    {
        self.cursor = 0;
    }

    pub fn move_end(&mut self)
        ensures
            final(self)@ == old(self)@.move_end(),
    {
        self.cursor = self.buf.len();
    }

    /// Delete the word before the cursor (Ctrl-W): skip any whitespace
    /// directly before the cursor, then delete the run of non-whitespace
    /// before that.
    pub fn delete_word(&mut self)
        ensures
            final(self)@ == old(self)@.delete_word(),
    {
        proof {
            use_type_invariant(&*self);
            lemma_skip_back_bounds(self.buf@, self.cursor as int);
        }
        if self.cursor == 0 {
            assert(self.buf@.take(0) + self.buf@.skip(0) =~= self.buf@);
            return;
        }
        let ghost t = self.buf@;
        let end = self.cursor;
        let mut start = end;
        while start > 0 && is_whitespace(self.buf[start - 1])
            invariant
                start <= end <= t.len(),
                self.buf@ == t,
                skip_back_ws(t, start as int) == skip_back_ws(t, end as int),
            decreases start,
        {
            start -= 1;
        }
        let ghost mid = start;
        while start > 0 && !is_whitespace(self.buf[start - 1])
            invariant
                start <= end <= t.len(),
                self.buf@ == t,
                skip_back_ws(t, end as int) == mid,
                skip_back_word(t, start as int) == skip_back_word(t, mid as int),
            decreases start,
        {
            start -= 1;
        }
        let mut rebuilt = slice_chars(self.buf.as_slice(), 0, start);
        let tail = slice_chars(self.buf.as_slice(), end, self.buf.len());
        extend_chars(&mut rebuilt, tail.as_slice());
        assert(rebuilt@ =~= t.take(start as int) + t.skip(end as int));
        self.cursor = start;
        self.buf = rebuilt;
    }

    /// Reset to an empty buffer.
    pub fn clear(&mut self)
        ensures
            final(self)@ == old(self)@.clear(),
    {
        self.cursor = 0;
        self.buf = Vec::new();
    }
}

/// Inserting a character and then pressing Backspace restores the editor.
pub proof fn law_backspace_undoes_insert(s: EditorView, c: char)
    requires
        s.wf(),
    ensures
        s.insert_char(c).backspace() == s,
{
    assert(s.text.insert(s.cursor as int, c).remove(s.cursor as int) =~= s.text);
}

/// Moving left and then pressing Delete removes the same character that
/// Backspace removes.
pub proof fn law_delete_after_left_is_backspace(s: EditorView)
    requires
        s.wf(),
        s.cursor > 0,
    ensures
        s.move_left().delete() == s.backspace(),
{
}

/// Every editing operation keeps the cursor within the text.
pub proof fn law_operations_keep_cursor_in_text(s: EditorView, c: char, t: Seq<char>)
    requires
        s.wf(),
    ensures
        s.insert_char(c).wf(),
        s.insert_str(t).wf(),
        s.backspace().wf(),
        s.delete().wf(),
        s.move_left().wf(),
        s.move_right().wf(),
        s.move_home().wf(),
        s.move_end().wf(),
        s.delete_word().wf(),
        s.clear().wf(),
{
    lemma_skip_back_bounds(s.text, s.cursor as int);
}

// ---------------------------------------------------------------------------
// Rendering
// ---------------------------------------------------------------------------

/// The fully-rendered box: the lines to print (top border, content rows,
/// bottom border) plus where the terminal cursor should land.
#[derive(Debug, Clone, PartialEq, Eq)]
pub struct RenderedBox {
    /// Every line of the box, top border first, bottom border last.
    pub lines: Vec<String>,
    /// Row index of the cursor within `lines` (the first content row is 1).
    pub cursor_row: usize,
    /// Column of the cursor within that line, counting the `│ ` prefix.
    pub cursor_col: usize,
}

/// The width the box is drawn at: `width`, but never below `MIN_WIDTH`.
pub open spec fn box_width(width: nat) -> nat {
    if width < MIN_WIDTH { MIN_WIDTH as nat } else { width }
}

/// Columns available to text: the box width minus `│ ` and ` │`.
pub open spec fn content_width(width: nat) -> nat {
    (box_width(width) - 4) as nat
}

/// The cursor position clamped to the text.
pub open spec fn clamp_cursor(n: nat, cursor: nat) -> nat {
    if cursor < n { cursor } else { n }
}

/// How many rows wrapping produces: one per full `w`-character chunk, plus a
/// final partial (or empty) row, plus an empty row when the cursor sits past
/// a completely filled last row.
pub open spec fn wrapped_count(n: nat, cursor: nat, w: nat) -> nat {
    if n % w > 0 || cursor >= n { n / w + 1 } else { n / w }
}

/// The `k`-th wrapped row: characters `k*w .. (k+1)*w` of the text.
pub open spec fn wrapped_row(text: Seq<char>, w: nat, k: nat) -> Seq<char> {
    let n = text.len();
    let a = if k * w < n { k * w } else { n };
    let b = if (k + 1) * w < n { (k + 1) * w } else { n };
    text.subrange(a as int, b as int)
}

/// Rows of the box before the visible window is chosen (at least `MIN_ROWS`).
pub open spec fn total_rows(text: Seq<char>, cursor: nat, width: nat) -> nat {
    let r = wrapped_count(text.len(), cursor, content_width(width));
    if r < MIN_ROWS { MIN_ROWS as nat } else { r }
}

/// Row of the cursor among all rows.
pub open spec fn cursor_row_all(text: Seq<char>, cursor: nat, width: nat) -> nat {
    clamp_cursor(text.len(), cursor) / content_width(width)
}

/// First row of the visible window, chosen so the cursor's row is shown.
pub open spec fn scroll_start(text: Seq<char>, cursor: nat, width: nat) -> nat {
    let r = cursor_row_all(text, cursor, width);
    if total_rows(text, cursor, width) > MAX_ROWS && r >= MAX_ROWS {
        (r - (MAX_ROWS - 1)) as nat
    } else {
        0
    }
}

/// Number of content rows shown.
pub open spec fn visible_rows(text: Seq<char>, cursor: nat, width: nat) -> nat {
    let t = total_rows(text, cursor, width);
    if t > MAX_ROWS { MAX_ROWS as nat } else { t }
}

/// The text of visible row `i`.
pub open spec fn shown_row(text: Seq<char>, cursor: nat, width: nat, i: nat) -> Seq<char> {
    let k = scroll_start(text, cursor, width) + i;
    let w = content_width(width);
    if k < wrapped_count(text.len(), cursor, w) {
        wrapped_row(text, w, k)
    } else {
        Seq::empty()
    }
}

/// A content row framed as `│ <row><padding> │`.
pub open spec fn framed(row: Seq<char>, cw: nat) -> Seq<char> {
    seq!['│', ' '] + row + repeat(' ', (cw - row.len()) as nat) + seq![' ', '│']
}

pub open spec fn top_border(cw: nat) -> Seq<char> {
    seq!['┌'] + repeat('─', cw + 2) + seq!['┐']
}

pub open spec fn bottom_border(cw: nat) -> Seq<char> {
    seq!['└'] + repeat('─', cw + 2) + seq!['┘']
}

/// Line `j` of the rendered box.
pub open spec fn box_line(text: Seq<char>, cursor: nat, width: nat, j: nat) -> Seq<char> {
    let cw = content_width(width);
    if j == 0 {
        top_border(cw)
    } else if j <= visible_rows(text, cursor, width) {
        framed(shown_row(text, cursor, width, (j - 1) as nat), cw)
    } else {
        bottom_border(cw)
    }
}

proof fn lemma_div_mod(a: nat, w: nat)
    requires
        w > 0,
    ensures
        a == (a / w) * w + a % w,
        a % w < w,
{
    vstd::arithmetic::div_mod::lemma_fundamental_div_mod(a as int, w as int);
    assert(w * (a / w) == (a / w) * w) by (nonlinear_arith);
}

/// Wrap `text` into rows of at most `w` characters, reporting the row and
/// column the cursor lands on. A cursor at a wrap boundary starts the next
/// row; a cursor past a full last row gets an empty row of its own.
fn wrap_with_cursor(text: &[char], cursor: usize, w: usize) -> (res: (Vec<Vec<char>>, usize, usize))
    requires
        w > 0,
    ensures
        res.0@.len() == wrapped_count(text@.len(), cursor as nat, w as nat),
        forall|k: int|
            0 <= k < res.0@.len() ==> (#[trigger] res.0@[k])@ == wrapped_row(text@, w as nat, k as nat),
        res.1 == clamp_cursor(text@.len(), cursor as nat) / (w as nat),
        res.2 == clamp_cursor(text@.len(), cursor as nat) % (w as nat),
        res.1 < res.0@.len(),
{
    let n = text.len();
    let full = n / w;
    let rem = n % w;
    proof {
        lemma_div_mod(n as nat, w as nat);
    }
    let mut rows: Vec<Vec<char>> = Vec::new();
    let mut k: usize = 0;
    let mut start: usize = 0;
    while k < full
        invariant
            w > 0,
            n == text@.len(),
            full == n / w,
            n == full * w + rem,
            k <= full,
            start == k * w,
            rows@.len() == k,
            forall|j: int| 0 <= j < rows@.len() ==> (#[trigger] rows@[j])@ == wrapped_row(text@, w as nat, j as nat),
        decreases full - k,
    {
        proof {
            assert((k + 1) * w <= full * w) by (nonlinear_arith)
                requires k + 1 <= full;
            assert((k + 1) * w == k * w + w) by (nonlinear_arith);
        }
        let row = slice_chars(text, start, start + w);
        proof {
            assert(row@ == wrapped_row(text@, w as nat, k as nat));
        }
        rows.push(row);
        k += 1;
        start = start + w;
    }
    if rem > 0 || full == 0 {
        let row = slice_chars(text, start, n);
        proof {
            assert((full + 1) * w == full * w + w) by (nonlinear_arith);
            assert(row@ == wrapped_row(text@, w as nat, full as nat));
        }
        rows.push(row);
    }
    let cur = if cursor < n { cursor } else { n };
    let cur_row = cur / w;
    let cur_col = cur % w;
    proof {
        lemma_div_mod(cur as nat, w as nat);
        if cur < n {
            assert(cur_row < full || rem > 0) by (nonlinear_arith)
                requires cur < n, n == full * w + rem, cur == cur_row * w + cur_col, cur_col < w, w > 0;
            assert(cur_row <= full) by (nonlinear_arith)
                requires cur < n, n == full * w + rem, cur == cur_row * w + cur_col, cur_col < w, rem < w, w > 0;
        } else {
            assert(cur_row == full) by (nonlinear_arith)
                requires cur == n, n == full * w + rem, cur == cur_row * w + cur_col, cur_col < w, rem < w, w > 0;
        }
    }
    if cur_row >= rows.len() {
        proof {
            assert(full * w == n);
            assert((full + 1) * w == full * w + w) by (nonlinear_arith);
            assert(wrapped_row(text@, w as nat, full as nat) =~= Seq::<char>::empty());
        }
        rows.push(Vec::new());
    }
    (rows, cur_row, cur_col)
}

/// `│ <row><padding> │`.
fn frame_row(row: &[char], cw: usize) -> (out: String)
    requires
        row@.len() <= cw,
    ensures
        out@ == framed(row@, cw as nat),
{
    let mut v: Vec<char> = vec!['│', ' '];
    extend_chars(&mut v, row);
    let pad = repeat_chars(' ', cw - row.len());
    extend_chars(&mut v, pad.as_slice());
    v.push(' ');
    v.push('│');
    assert(v@ =~= framed(row@, cw as nat));
    string_of(v.as_slice())
}

fn border(left: char, right: char, cw: usize) -> (out: String)
    requires
        cw + 2 <= usize::MAX,
    ensures
        out@ == seq![left] + repeat('─', (cw + 2) as nat) + seq![right],
{
    let mut v: Vec<char> = vec![left];
    let dashes = repeat_chars('─', cw + 2);
    extend_chars(&mut v, dashes.as_slice());
    v.push(right);
    assert(v@ =~= seq![left] + repeat('─', (cw + 2) as nat) + seq![right]);
    string_of(v.as_slice())
}

/// Render the bordered, auto-expanding input box for `text` with the cursor
/// at character index `cursor`, drawn `width` columns wide.
///
/// The content area is `width - 4` columns (`│`, space … space, `│`). The box
/// shows at least `MIN_ROWS` content rows, grows one row per wrapped line,
/// caps at `MAX_ROWS`, and scrolls to keep the cursor's row visible.
pub fn render_box(text: &str, cursor: usize, width: usize) -> (rb: RenderedBox)
    ensures
        rb.lines@.len() == visible_rows(text@, cursor as nat, width as nat) + 2,
        forall|j: int|
            0 <= j < rb.lines@.len() ==> (#[trigger] rb.lines@[j])@ == box_line(
                text@,
                cursor as nat,
                width as nat,
                j as nat,
            ),
        rb.cursor_row == cursor_row_all(text@, cursor as nat, width as nat) - scroll_start(
            text@,
            cursor as nat,
            width as nat,
        ) + 1,
        rb.cursor_col == clamp_cursor(text@.len(), cursor as nat) % content_width(width as nat) + 2,
{
    let chars = chars_of(text);
    let width = if width < MIN_WIDTH { MIN_WIDTH } else { width };
    let cw = width - 4;
    let (rows, cur_row, cur_col) = wrap_with_cursor(chars.as_slice(), cursor, cw);
    let ghost r = rows@.len();
    let ghost tv = text@;
    let ghost c = cursor as nat;
    let ghost wd = width as nat;
    let total = if rows.len() < MIN_ROWS { MIN_ROWS } else { rows.len() };
    let mut start: usize = 0;
    if total > MAX_ROWS && cur_row >= MAX_ROWS {
        start = cur_row - (MAX_ROWS - 1);
    }
    let visible = if total > MAX_ROWS { MAX_ROWS } else { total };
    assert(start + visible <= total);
    assert(cur_row >= start && cur_row < start + visible);
    let mut lines: Vec<String> = Vec::new();
    lines.push(border('┌', '┐', cw));
    let mut i: usize = 0;
    while i < visible
        invariant
            i <= visible,
            visible == visible_rows(tv, c, wd),
            start == scroll_start(tv, c, wd),
            start + visible <= total,
            total == total_rows(tv, c, wd),
            cw == content_width(wd),
            cw > 0,
            rows@.len() == wrapped_count(tv.len(), c, cw as nat),
            forall|k: int|
                0 <= k < rows@.len() ==> (#[trigger] rows@[k])@ == wrapped_row(tv, cw as nat, k as nat),
            lines@.len() == i + 1,
            forall|j: int| 0 <= j < lines@.len() ==> (#[trigger] lines@[j])@ == box_line(tv, c, wd, j as nat),
        decreases visible - i,
    {
        let k = start + i;
        proof {
            lemma_row_fits(tv, cw as nat, k as nat);
        }
        let line = if k < rows.len() {
            frame_row(rows[k].as_slice(), cw)
        } else {
            let empty: Vec<char> = Vec::new();
            frame_row(empty.as_slice(), cw)
        };
        lines.push(line);
        i += 1;
    }
    lines.push(border('└', '┘', cw));
    RenderedBox { lines, cursor_row: cur_row - start + 1, cursor_col: cur_col + 2 }
}

proof fn lemma_row_fits(text: Seq<char>, w: nat, k: nat)
    ensures
        wrapped_row(text, w, k).len() <= w,
{
    assert((k + 1) * w == k * w + w) by (nonlinear_arith);
}

/// Every line of a rendered box is exactly as wide as the box.
pub proof fn law_box_lines_have_box_width(text: Seq<char>, cursor: nat, width: nat, j: nat)
    requires
        j < visible_rows(text, cursor, width) + 2,
    ensures
        box_line(text, cursor, width, j).len() == box_width(width),
{
    let cw = content_width(width);
    if 1 <= j <= visible_rows(text, cursor, width) {
        let k = scroll_start(text, cursor, width) + (j - 1) as nat;
        lemma_row_fits(text, cw, k);
    }
}

/// The box always has between `MIN_ROWS` and `MAX_ROWS` content rows.
pub proof fn law_box_row_bounds(text: Seq<char>, cursor: nat, width: nat)
    ensures
        MIN_ROWS <= visible_rows(text, cursor, width) <= MAX_ROWS,
{
}

// ---------------------------------------------------------------------------
// Escape sequences
// ---------------------------------------------------------------------------

/// The editing key an escape sequence stands for.
#[derive(Debug, Clone, Copy, PartialEq, Eq)]
pub enum EscapeKey {
    Right,
    Left,
    Home,
    End,
    Delete,
    Ignored,
}

/// Index of the first CSI final byte (`0x40..=0x7e`) at or after `i`, or the
/// length of `b` when there is none.
pub open spec fn final_byte_at(b: Seq<u8>, i: int) -> int
    decreases b.len() - i,
{
    if i >= b.len() {
        b.len() as int
    } else if 0x40 <= b[i] && b[i] <= 0x7e {
        i
    } else {
        final_byte_at(b, i + 1)
    }
}

/// How many bytes of `b` (the bytes following ESC) the sequence occupies.
pub open spec fn escape_len(b: Seq<u8>) -> nat {
    if b.len() == 0 {
        0
    } else if b[0] != 0x5b && b[0] != 0x4f {
        1
    } else if b.len() == 1 {
        1
    } else if 0x30 <= b[1] && b[1] <= 0x39 {
        let f = final_byte_at(b, 2);
        if f < b.len() { (f + 1) as nat } else { b.len() }
    } else {
        2
    }
}

/// Which key the sequence at the start of `b` stands for.
pub open spec fn escape_key(b: Seq<u8>) -> EscapeKey {
    if b.len() < 2 || (b[0] != 0x5b && b[0] != 0x4f) {
        EscapeKey::Ignored
    } else if b[1] == 0x43 {
        EscapeKey::Right
    } else if b[1] == 0x44 {
        EscapeKey::Left
    } else if b[1] == 0x48 {
        EscapeKey::Home
    } else if b[1] == 0x46 {
        EscapeKey::End
    } else if 0x30 <= b[1] && b[1] <= 0x39 {
        let f = final_byte_at(b, 2);
        if f == 2 && f < b.len() && b[f] == 0x7e {
            if b[1] == 0x31 {
                EscapeKey::Home
            } else if b[1] == 0x34 {
                EscapeKey::End
            } else if b[1] == 0x33 {
                EscapeKey::Delete
            } else {
                EscapeKey::Ignored
            }
        } else {
            EscapeKey::Ignored
        }
    } else {
        EscapeKey::Ignored
    }
}

pub open spec fn apply_key(s: EditorView, k: EscapeKey) -> EditorView {
    match k {
        EscapeKey::Right => s.move_right(),
        EscapeKey::Left => s.move_left(),
        EscapeKey::Home => s.move_home(),
        EscapeKey::End => s.move_end(),
        EscapeKey::Delete => s.delete(),
        EscapeKey::Ignored => s,
    }
}

/// What the box input does after one byte of raw terminal input.
#[derive(Debug, PartialEq, Eq)]
pub enum BoxAction {
    /// Ctrl-C: give up the line.
    Cancel,
    /// Ctrl-D on an empty line, or input closed: end of input.
    Eof,
    /// Enter: the line is done.
    Submit(String),
    /// The text or cursor may have changed: draw the box again.
    Redraw,
    /// ESC: an escape sequence follows (see [`handle_escape`]).
    Escape,
    /// A printable character starts here: read this many continuation bytes
    /// and insert them with [`insert_utf8`].
    Character(usize),
    /// A byte that does nothing.
    Ignore,
}

/// Handle one byte typed into the box: Ctrl-C cancels, Ctrl-D ends input
/// on an empty line (and does nothing otherwise), Ctrl-W deletes the word
/// before the cursor, Enter submits the text, Backspace (or Ctrl-H) deletes
/// before the cursor, ESC starts an escape sequence, other control bytes do
/// nothing, and any other byte starts a character.
pub fn box_step(editor: &mut InputEditor, byte: u8) -> (a: BoxAction)
    ensures
        byte == 0x03 ==> a == BoxAction::Cancel && final(editor)@ == old(editor)@,
        byte == 0x04 ==> final(editor)@ == old(editor)@
            && a == (if old(editor)@.text.len() == 0 { BoxAction::Eof } else { BoxAction::Ignore }),
        byte == 0x17 ==> a == BoxAction::Redraw && final(editor)@ == old(editor)@.delete_word(),
        (byte == 0x0d || byte == 0x0a) ==> (a matches BoxAction::Submit(t) && t@ == old(editor)@.text)
            && final(editor)@ == old(editor)@,
        (byte == 0x7f || byte == 0x08) ==> a == BoxAction::Redraw && final(editor)@ == old(editor)@.backspace(),
        byte == 0x1b ==> a == BoxAction::Escape && final(editor)@ == old(editor)@,
        (byte < 0x20 && byte != 0x03 && byte != 0x04 && byte != 0x17 && byte != 0x0d && byte != 0x0a && byte != 0x08
            && byte != 0x1b) ==> a == BoxAction::Ignore && final(editor)@ == old(editor)@,
        (byte >= 0x20 && byte != 0x7f) ==> final(editor)@ == old(editor)@ && a == BoxAction::Character(
            if byte >= 0xf0 { 3usize } else if byte >= 0xe0 { 2usize } else if byte >= 0xc0 { 1usize } else { 0usize },
        ),
{
    if byte == 0x03 {
        BoxAction::Cancel
    } else if byte == 0x04 {
        if editor.is_empty() { BoxAction::Eof } else { BoxAction::Ignore }
    } else if byte == 0x17 {
        editor.delete_word();
        BoxAction::Redraw
    } else if byte == 0x0d || byte == 0x0a {
        BoxAction::Submit(editor.text())
    } else if byte == 0x7f || byte == 0x08 {
        editor.backspace();
        BoxAction::Redraw
    } else if byte == 0x1b {
        BoxAction::Escape
    } else if byte < 0x20 {
        BoxAction::Ignore
    } else {
        BoxAction::Character(utf8_continuation_bytes(byte))
    }
}

/// Insert the character whose UTF-8 bytes were read; bytes that are not
/// UTF-8 are dropped. Whether anything was inserted (and the box needs
/// drawing again) is returned.
pub fn insert_utf8(editor: &mut InputEditor, bytes: &[u8]) -> (inserted: bool)
    ensures
        inserted == vstd::utf8::valid_utf8(bytes@),
        inserted ==> final(editor)@ == old(editor)@.insert_str(vstd::utf8::decode_utf8(bytes@)),
        !inserted ==> final(editor)@ == old(editor)@,
{
    match crate::memory::text_of_bytes(bytes) {
        Some(s) => {
            editor.insert_str(s.as_str());
            true
        },
        None => false,
    }
}

/// Number of UTF-8 continuation bytes that follow a given lead byte.
pub fn utf8_continuation_bytes(lead: u8) -> (n: usize)
    ensures
        n == (if lead >= 0xf0 { 3usize } else if lead >= 0xe0 { 2usize } else if lead >= 0xc0 { 1usize } else { 0usize }),
{
    if lead >= 0xf0 {
        3
    } else if lead >= 0xe0 {
        2
    } else if lead >= 0xc0 {
        1
    } else {
        0
    }
}

/// Decode and apply the escape sequence at the start of `input` (the bytes
/// that followed ESC). Recognizes arrows (`[C`/`[D`), Home/End (`[H`/`[F`,
/// `[1~`/`[4~`) and Delete (`[3~`); a parameterized sequence is read up to its
/// final byte, so a modified arrow like `[1;5C` is consumed and ignored
/// without swallowing the next keystroke. Returns how many bytes were read.
pub fn handle_escape(input: &[u8], editor: &mut InputEditor) -> (used: usize)
    ensures
        used == escape_len(input@),
        final(editor)@ == apply_key(old(editor)@, escape_key(input@)),
{
    if input.len() == 0 {
        return 0;
    }
    if input[0] != 0x5b && input[0] != 0x4f {
        return 1;
    }
    if input.len() == 1 {
        return 1;
    }
    let b = input[1];
    if b == 0x43 {
        editor.move_right();
        2
    } else if b == 0x44 {
        editor.move_left();
        2
    } else if b == 0x48 {
        editor.move_home();
        2
    } else if b == 0x46 {
        editor.move_end();
        2
    } else if 0x30 <= b && b <= 0x39 {
        let mut j: usize = 2;
        while j < input.len() && !(0x40 <= input[j] && input[j] <= 0x7e)
            invariant
                2 <= j <= input@.len(),
                final_byte_at(input@, j as int) == final_byte_at(input@, 2),
            decreases input@.len() - j,
        {
            j += 1;
        }
        if j < input.len() {
            if j == 2 && input[j] == 0x7e {
                if b == 0x31 {
                    editor.move_home();
                } else if b == 0x34 {
                    editor.move_end();
                } else if b == 0x33 {
                    editor.delete();
                }
            }
            j + 1
        } else {
            j
        }
    } else {
        2
    }
}

} // verus!
