//! Character-level building blocks shared by the rest of the library: turning
//! strings into character vectors and back, whitespace trimming, and decimal
//! rendering of integers. Every function here is specified over `Seq<char>`.
use vstd::prelude::*;

verus! {

broadcast use vstd::string::group_string_axioms;

/// Unicode `White_Space` characters, the set that `char::is_whitespace` tests.
pub open spec fn is_ws(c: char) -> bool {
    ||| ('\u{9}' <= c && c <= '\u{d}')
    ||| c == ' '
    ||| c == '\u{85}'
    ||| c == '\u{a0}'
    ||| c == '\u{1680}'
    ||| ('\u{2000}' <= c && c <= '\u{200a}')
    ||| c == '\u{2028}'
    ||| c == '\u{2029}'
    ||| c == '\u{202f}'
    ||| c == '\u{205f}'
    ||| c == '\u{3000}'
}

/// `s` with its leading whitespace removed (`str::trim_start`).
pub open spec fn trim_start(s: Seq<char>) -> Seq<char>
    decreases s.len(),
{
    if s.len() > 0 && is_ws(s[0]) {
        trim_start(s.drop_first())
    } else {
        s
    }
}

/// `s` with its trailing whitespace removed (`str::trim_end`).
pub open spec fn trim_end(s: Seq<char>) -> Seq<char>
    decreases s.len(),
{
    if s.len() > 0 && is_ws(s.last()) {
        trim_end(s.drop_last())
    } else {
        s
    }
}

/// `s` with whitespace removed at both ends (`str::trim`).
pub open spec fn trim(s: Seq<char>) -> Seq<char> {
    trim_end(trim_start(s))
}

/// Nothing is left of nothing.
pub proof fn lemma_trim_empty()
    ensures
        trim(Seq::<char>::empty()) == Seq::<char>::empty(),
{
}

/// The decimal digits of a 128-bit `n`.
pub fn decimal_string_u128(n: u128) -> (out: Vec<char>)
    ensures
        out@ == decimal(n as nat),
    decreases n,
{
    let d = (n % 10) as u64;
    let c = if d == 0 { '0' }
        else if d == 1 { '1' }
        else if d == 2 { '2' }
        else if d == 3 { '3' }
        else if d == 4 { '4' }
        else if d == 5 { '5' }
        else if d == 6 { '6' }
        else if d == 7 { '7' }
        else if d == 8 { '8' }
        else { '9' };
    if n < 10 {
        vec![c]
    } else {
        let mut out = decimal_string_u128(n / 10);
        out.push(c);
        out
    }
}

/// `n` copies of `c`.
pub open spec fn repeat(c: char, n: nat) -> Seq<char> {
    Seq::new(n, |_i: int| c)
}

/// The decimal digit character for `d < 10`.
pub open spec fn digit_char(d: nat) -> char {
    if d == 0 { '0' }
    else if d == 1 { '1' }
    else if d == 2 { '2' }
    else if d == 3 { '3' }
    else if d == 4 { '4' }
    else if d == 5 { '5' }
    else if d == 6 { '6' }
    else if d == 7 { '7' }
    else if d == 8 { '8' }
    else { '9' }
}

/// The decimal rendering of `n`, without leading zeros (`n.to_string()`).
pub open spec fn decimal(n: nat) -> Seq<char>
    decreases n,
{
    if n < 10 {
        seq![digit_char(n)]
    } else {
        decimal(n / 10).push(digit_char(n % 10))
    }
}

pub open spec fn is_digit(c: char) -> bool {
    '0' <= c && c <= '9'
}

/// ASCII lowercase of one character (`char::to_ascii_lowercase`).
pub open spec fn ascii_lower(c: char) -> char {
    if 'A' <= c && c <= 'Z' {
        ((c as u32) + 32) as char
    } else {
        c
    }
}

/// `a` and `b` are equal up to ASCII case (`str::eq_ignore_ascii_case`).
pub open spec fn eq_ignore_ascii_case(a: Seq<char>, b: Seq<char>) -> bool {
    a.len() == b.len() && forall|i: int| 0 <= i < a.len() ==> ascii_lower(#[trigger] a[i]) == ascii_lower(b[i])
}

/// The characters of `s`, in order.
pub fn chars_of(s: &str) -> (out: Vec<char>)
    ensures
        out@ == s@,
{
    let mut out: Vec<char> = Vec::new();
    for c in it: s.chars()
        invariant
            out@ == it.seq().take(it.index() as int),
            it.seq() == s@,
    {
        out.push(c);
    }
    out
}

/// Appends one character to a string (`String::push`).
#[verifier::external_body]
pub fn push_char(s: &mut String, c: char)
    ensures
        final(s)@ == old(s)@.push(c),
{
    s.push(c);
}

/// A string holding exactly the characters of `v`.
pub fn string_of(v: &[char]) -> (out: String)
    ensures
        out@ == v@,
{
    let mut out = String::new();
    let mut i: usize = 0;
    while i < v.len()
        invariant
            i <= v@.len(),
            out@ == v@.take(i as int),
        decreases v@.len() - i,
    {
        push_char(&mut out, v[i]);
        assert(v@.take(i as int).push(v@[i as int]) =~= v@.take(i + 1));
        i += 1;
    }
    assert(v@.take(v@.len() as int) =~= v@);
    out
}

/// Appends the characters `t` to `v`.
pub fn extend_chars(v: &mut Vec<char>, t: &[char])
    ensures
        final(v)@ == old(v)@ + t@,
{
    let mut i: usize = 0;
    while i < t.len()
        invariant
            i <= t@.len(),
            v@ == old(v)@ + t@.take(i as int),
        decreases t@.len() - i,
    {
        v.push(t[i]);
        assert(old(v)@ + t@.take(i as int) + seq![t@[i as int]] =~= old(v)@ + t@.take(i + 1));
        i += 1;
    }
    assert(t@.take(t@.len() as int) =~= t@);
}

/// Appends the characters of `t` to `v`.
pub fn extend_str(v: &mut Vec<char>, t: &str)
    ensures
        final(v)@ == old(v)@ + t@,
{
    let tc = chars_of(t);
    extend_chars(v, tc.as_slice());
}

/// `c == ' '` or any other Unicode whitespace (`char::is_whitespace`).
pub fn is_whitespace(c: char) -> (b: bool)
    ensures
        b == is_ws(c),
{
    ('\u{9}' <= c && c <= '\u{d}') || c == ' ' || c == '\u{85}' || c == '\u{a0}' || c == '\u{1680}'
        || ('\u{2000}' <= c && c <= '\u{200a}') || c == '\u{2028}' || c == '\u{2029}' || c
        == '\u{202f}' || c == '\u{205f}' || c == '\u{3000}'
}

/// The sub-sequence `v[start..end]` as a new vector.
pub fn slice_chars(v: &[char], start: usize, end: usize) -> (out: Vec<char>)
    requires
        start <= end <= v@.len(),
    ensures
        out@ == v@.subrange(start as int, end as int),
{
    let mut out: Vec<char> = Vec::new();
    let mut i = start;
    while i < end
        invariant
            start <= i <= end <= v@.len(),
            out@ == v@.subrange(start as int, i as int),
        decreases end - i,
    {
        out.push(v[i]);
        assert(v@.subrange(start as int, i as int).push(v@[i as int]) =~= v@.subrange(
            start as int,
            i + 1,
        ));
        i += 1;
    }
    out
}

/// Index of the first non-whitespace character (or `len`): `trim_start` is
/// the suffix from there.
pub fn trim_start_index(v: &[char]) -> (k: usize)
    ensures
        k <= v@.len(),
        trim_start(v@) == v@.skip(k as int),
{
    let mut k: usize = 0;
    assert(v@.skip(0) =~= v@);
    while k < v.len() && is_whitespace(v[k])
        invariant
            k <= v@.len(),
            trim_start(v@) == trim_start(v@.skip(k as int)),
        decreases v@.len() - k,
    {
        proof {
            let t = v@.skip(k as int);
            assert(t.drop_first() =~= v@.skip(k + 1));
        }
        k += 1;
    }
    proof {
        let t = v@.skip(k as int);
        assert(t.len() == 0 || !is_ws(t[0]));
    }
    k
}

/// One past the last non-whitespace character (or 0): `trim_end` is the
/// prefix up to there.
pub fn trim_end_index(v: &[char]) -> (k: usize)
    ensures
        k <= v@.len(),
        trim_end(v@) == v@.take(k as int),
{
    let mut k: usize = v.len();
    assert(v@.take(k as int) =~= v@);
    while k > 0 && is_whitespace(v[k - 1])
        invariant
            k <= v@.len(),
            trim_end(v@) == trim_end(v@.take(k as int)),
        decreases k,
    {
        proof {
            let t = v@.take(k as int);
            assert(t.drop_last() =~= v@.take(k - 1));
        }
        k -= 1;
    }
    k
}

/// `trim(s)` as a character vector.
pub fn trim_chars(v: &[char]) -> (out: Vec<char>)
    ensures
        out@ == trim(v@),
{
    let a = trim_start_index(v);
    let rest = slice_chars(v, a, v.len());
    assert(rest@ =~= v@.skip(a as int));
    let b = trim_end_index(rest.as_slice());
    slice_chars(rest.as_slice(), 0, b)
}

/// `trim(s)` as a character vector.
pub fn trim_str(s: &str) -> (out: Vec<char>)
    ensures
        out@ == trim(s@),
{
    let v = chars_of(s);
    trim_chars(v.as_slice())
}

/// Whether two character sequences are equal.
pub fn chars_eq(a: &[char], b: &[char]) -> (r: bool)
    ensures
        r == (a@ == b@),
{
    if a.len() != b.len() {
        return false;
    }
    let mut i: usize = 0;
    while i < a.len()
        invariant
            a@.len() == b@.len(),
            i <= a@.len(),
            forall|j: int| 0 <= j < i ==> a@[j] == b@[j],
        decreases a@.len() - i,
    {
        if a[i] != b[i] {
            return false;
        }
        i += 1;
    }
    assert(a@ =~= b@);
    true
}

/// Whether `a` equals the literal or string `b`.
pub fn chars_eq_str(a: &[char], b: &str) -> (r: bool)
    ensures
        r == (a@ == b@),
{
    let bc = chars_of(b);
    chars_eq(a, bc.as_slice())
}

/// Whether `p` is a prefix of `v` starting at position `at`.
pub fn has_at(v: &[char], at: usize, p: &[char]) -> (r: bool)
    requires
        at <= v@.len(),
    ensures
        r == (p@.len() <= v@.len() - at && v@.subrange(at as int, at + p@.len()) == p@),
{
    if p.len() > v.len() - at {
        return false;
    }
    let mut i: usize = 0;
    while i < p.len()
        invariant
            at <= v@.len(),
            v@.len() <= usize::MAX,
            p@.len() <= v@.len() - at,
            i <= p@.len(),
            forall|j: int| 0 <= j < i ==> v@[at + j] == p@[j],
        decreases p@.len() - i,
    {
        if v[at + i] != p[i] {
            assert(v@.subrange(at as int, at + p@.len())[i as int] != p@[i as int]);
            return false;
        }
        i += 1;
    }
    assert(v@.subrange(at as int, at + p@.len()) =~= p@);
    true
}

/// Whether `v` starts with the characters of `p` (`str::starts_with`).
pub fn starts_with_str(v: &[char], p: &str) -> (r: bool)
    ensures
        r == p@.is_prefix_of(v@),
{
    let pc = chars_of(p);
    let r = has_at(v, 0, pc.as_slice());
    proof {
        if r {
            assert forall|j: int| 0 <= j < p@.len() implies p@[j] == v@[j] by {
                assert(v@.subrange(0, p@.len() as int)[j] == v@[j]);
            }
        }
        if p@.is_prefix_of(v@) {
            assert(v@.subrange(0, p@.len() as int) =~= p@);
        }
    }
    r
}

/// The decimal rendering of `n` (`n.to_string()`).
pub fn decimal_string(n: u64) -> (out: Vec<char>)
    ensures
        out@ == decimal(n as nat),
    decreases n,
{
    let d = n % 10;
    let c = if d == 0 { '0' }
        else if d == 1 { '1' }
        else if d == 2 { '2' }
        else if d == 3 { '3' }
        else if d == 4 { '4' }
        else if d == 5 { '5' }
        else if d == 6 { '6' }
        else if d == 7 { '7' }
        else if d == 8 { '8' }
        else { '9' };
    if n < 10 {
        vec![c]
    } else {
        let mut out = decimal_string(n / 10);
        out.push(c);
        out
    }
}

/// `n` copies of `c`.
pub fn repeat_chars(c: char, n: usize) -> (out: Vec<char>)
    ensures
        out@ == repeat(c, n as nat),
{
    let mut out: Vec<char> = Vec::new();
    let mut i: usize = 0;
    while i < n
        invariant
            i <= n,
            out@ == repeat(c, i as nat),
        decreases n - i,
    {
        out.push(c);
        assert(repeat(c, i as nat).push(c) =~= repeat(c, (i + 1) as nat));
        i += 1;
    }
    out
}

} // verus!

verus! {

/// `ls` joined with `sep` between consecutive items (`slice::join`).
pub open spec fn join(ls: Seq<Seq<char>>, sep: Seq<char>) -> Seq<char>
    decreases ls.len(),
{
    if ls.len() == 0 {
        Seq::empty()
    } else if ls.len() == 1 {
        ls[0]
    } else {
        join(ls.drop_last(), sep) + sep + ls.last()
    }
}

/// The views of a vector of character vectors.
pub open spec fn views(v: Seq<Vec<char>>) -> Seq<Seq<char>> {
    v.map_values(|x: Vec<char>| x@)
}

/// `parts` joined with `sep`.
pub fn join_parts(parts: &Vec<Vec<char>>, sep: &str) -> (out: Vec<char>)
    ensures
        out@ == join(views(parts@), sep@),
{
    let mut out: Vec<char> = Vec::new();
    let mut i: usize = 0;
    while i < parts.len()
        invariant
            i <= parts@.len(),
            out@ == join(views(parts@).take(i as int), sep@),
        decreases parts@.len() - i,
    {
        let ghost prev = views(parts@).take(i as int);
        if i > 0 {
            extend_str(&mut out, sep);
        }
        extend_chars(&mut out, parts[i].as_slice());
        proof {
            let next = views(parts@).take(i + 1);
            assert(next.drop_last() =~= prev);
            if i == 0 {
                assert(prev =~= Seq::<Seq<char>>::empty());
            }
        }
        i += 1;
    }
    assert(views(parts@).take(parts@.len() as int) =~= views(parts@));
    out
}

/// Truncation to `max` characters with `...` appended when anything was cut.
pub open spec fn truncate_dots(s: Seq<char>, max: nat) -> Seq<char> {
    if s.len() <= max { s } else { s.take(max as int) + seq!['.', '.', '.'] }
}

/// Truncation to `max` characters, marking a cut with `…` in the last place.
pub open spec fn truncate_ellipsis(s: Seq<char>, max: nat) -> Seq<char> {
    if s.len() <= max {
        s
    } else {
        s.take(if max >= 1 { max - 1 } else { 0 }) + seq!['…']
    }
}

/// `s` cut to `max` characters, with `...` appended when it was longer.
pub fn truncate_with_dots(s: &[char], max: usize) -> (out: Vec<char>)
    ensures
        out@ == truncate_dots(s@, max as nat),
{
    if s.len() <= max {
        slice_chars(s, 0, s.len())
    } else {
        let mut out = slice_chars(s, 0, max);
        out.push('.');
        out.push('.');
        out.push('.');
        assert(out@ =~= s@.take(max as int) + seq!['.', '.', '.']);
        out
    }
}

/// `s` cut to `max` characters, the last of which becomes `…` when it was
/// longer.
pub fn truncate_with_ellipsis(s: &[char], max: usize) -> (out: Vec<char>)
    ensures
        out@ == truncate_ellipsis(s@, max as nat),
{
    if s.len() <= max {
        slice_chars(s, 0, s.len())
    } else {
        let keep = if max >= 1 { max - 1 } else { 0 };
        let mut out = slice_chars(s, 0, keep);
        out.push('…');
        assert(out@ =~= s@.take(keep as int) + seq!['…']);
        out
    }
}

/// Number of leading non-whitespace characters.
pub open spec fn word_len(s: Seq<char>) -> nat
    decreases s.len(),
{
    if s.len() > 0 && !is_ws(s[0]) {
        1 + word_len(s.drop_first())
    } else {
        0
    }
}

/// The first whitespace-separated word of `s`, or empty
/// (`s.split_whitespace().next().unwrap_or("")`).
pub open spec fn first_word(s: Seq<char>) -> Seq<char> {
    let u = trim_start(s);
    u.take(word_len(u) as int)
}

pub fn word_len_exec(s: &[char]) -> (k: usize)
    ensures
        k == word_len(s@),
        k <= s@.len(),
{
    let mut k: usize = 0;
    assert(s@.skip(0) =~= s@);
    while k < s.len() && !is_whitespace(s[k])
        invariant
            k <= s@.len(),
            word_len(s@) == k + word_len(s@.skip(k as int)),
        decreases s@.len() - k,
    {
        assert(s@.skip(k as int).drop_first() =~= s@.skip(k + 1));
        k += 1;
    }
    k
}

pub fn first_word_exec(s: &[char]) -> (out: Vec<char>)
    ensures
        out@ == first_word(s@),
{
    let a = trim_start_index(s);
    let u = slice_chars(s, a, s.len());
    assert(u@ =~= s@.skip(a as int));
    let k = word_len_exec(u.as_slice());
    slice_chars(u.as_slice(), 0, k)
}

/// Whether `w` equals one of the strings in `list`.
pub fn in_list(w: &[char], list: &[&str]) -> (r: bool)
    ensures
        r == exists|i: int| 0 <= i < list@.len() && (#[trigger] list@[i])@ == w@,
{
    let mut i: usize = 0;
    while i < list.len()
        invariant
            i <= list@.len(),
            forall|j: int| 0 <= j < i ==> (#[trigger] list@[j])@ != w@,
        decreases list@.len() - i,
    {
        if chars_eq_str(w, list[i]) {
            return true;
        }
        i += 1;
    }
    false
}

/// Whether one of the strings in `list` is a prefix of `v`.
pub fn any_prefix(v: &[char], list: &[&str]) -> (r: bool)
    ensures
        r == exists|i: int| 0 <= i < list@.len() && (#[trigger] list@[i])@.is_prefix_of(v@),
{
    let mut i: usize = 0;
    while i < list.len()
        invariant
            i <= list@.len(),
            forall|j: int| 0 <= j < i ==> !(#[trigger] list@[j])@.is_prefix_of(v@),
        decreases list@.len() - i,
    {
        if starts_with_str(v, list[i]) {
            return true;
        }
        i += 1;
    }
    false
}

} // verus!

verus! {

pub proof fn lemma_trim_start_len(s: Seq<char>)
    ensures
        trim_start(s).len() <= s.len(),
    decreases s.len(),
{
    if s.len() > 0 && is_ws(s[0]) {
        lemma_trim_start_len(s.drop_first());
    }
}

pub proof fn lemma_word_len(s: Seq<char>)
    ensures
        word_len(s) <= s.len(),
    decreases s.len(),
{
    if s.len() > 0 && !is_ws(s[0]) {
        lemma_word_len(s.drop_first());
    }
}

/// The first word of `s` is no longer than `s`.
pub proof fn lemma_first_word_len(s: Seq<char>)
    ensures
        first_word(s).len() <= s.len(),
{
    lemma_trim_start_len(s);
    lemma_word_len(trim_start(s));
}

} // verus!

verus! {

pub fn ascii_lower_exec(c: char) -> (r: char)
    ensures
        r == ascii_lower(c),
{
    if 'A' <= c && c <= 'Z' {
        let b = (c as u32) + 32;
        assert(0x61 <= b <= 0x7a);
        char_from_ascii(b)
    } else {
        c
    }
}

/// The character with code point `b` (`char::from_u32` on an ASCII value).
pub fn char_from_ascii(b: u32) -> (c: char)
    requires
        b < 0x80,
    ensures
        c == b as char,
{
    (b as u8) as char
}

/// Whether `a` equals `b` ignoring ASCII case (`str::eq_ignore_ascii_case`).
pub fn eq_ignore_case(a: &[char], b: &str) -> (r: bool)
    ensures
        r == eq_ignore_ascii_case(a@, b@),
{
    let bc = chars_of(b);
    if a.len() != bc.len() {
        return false;
    }
    let mut i: usize = 0;
    while i < a.len()
        invariant
            a@.len() == bc@.len(),
            bc@ == b@,
            i <= a@.len(),
            forall|j: int| 0 <= j < i ==> ascii_lower(#[trigger] a@[j]) == ascii_lower(bc@[j]),
        decreases a@.len() - i,
    {
        if ascii_lower_exec(a[i]) != ascii_lower_exec(bc[i]) {
            return false;
        }
        i += 1;
    }
    true
}

} // verus!

verus! {

/// Index of the first occurrence of `p` in `t` at or after `from`, or -1.
pub open spec fn find_sub(t: Seq<char>, p: Seq<char>, from: int) -> int
    decreases t.len() + 1 - from,
{
    if from < 0 || from + p.len() > t.len() {
        -1
    } else if t.subrange(from, from + p.len()) == p {
        from
    } else {
        find_sub(t, p, from + 1)
    }
}

/// Index of the last occurrence of `p` in `t` starting at or before `j`, or -1.
pub open spec fn rfind_sub_from(t: Seq<char>, p: Seq<char>, j: int) -> int
    decreases j + 1,
{
    if j < 0 {
        -1
    } else if j + p.len() <= t.len() && t.subrange(j, j + p.len()) == p {
        j
    } else {
        rfind_sub_from(t, p, j - 1)
    }
}

/// Index of the last occurrence of `p` in `t`, or -1 (`str::rfind`).
pub open spec fn rfind_sub(t: Seq<char>, p: Seq<char>) -> int {
    rfind_sub_from(t, p, t.len() - p.len())
}

pub proof fn lemma_find_sub_range(t: Seq<char>, p: Seq<char>, from: int)
    ensures
        find_sub(t, p, from) == -1 || (from <= find_sub(t, p, from) && find_sub(t, p, from) + p.len() <= t.len()),
        find_sub(t, p, from) >= 0 ==> t.subrange(find_sub(t, p, from), find_sub(t, p, from) + p.len()) == p,
    decreases t.len() + 1 - from,
{
    if !(from < 0 || from + p.len() > t.len()) && t.subrange(from, from + p.len()) != p {
        lemma_find_sub_range(t, p, from + 1);
    }
}

pub proof fn lemma_rfind_sub_range(t: Seq<char>, p: Seq<char>, j: int)
    ensures
        rfind_sub_from(t, p, j) == -1 || (0 <= rfind_sub_from(t, p, j) <= j && rfind_sub_from(t, p, j) + p.len() <= t.len()),
    decreases j + 1,
{
    if j >= 0 && !(j + p.len() <= t.len() && t.subrange(j, j + p.len()) == p) {
        lemma_rfind_sub_range(t, p, j - 1);
    }
}

/// First occurrence of `p` in `t` at or after `from` (`str::find`).
pub fn find_sub_exec(t: &[char], p: &[char], from: usize) -> (r: Option<usize>)
    ensures
        match r {
            Some(j) => j == find_sub(t@, p@, from as int) && j + p@.len() <= t@.len(),
            None => find_sub(t@, p@, from as int) == -1,
        },
{
    if p.len() == 0 {
        if from <= t.len() {
            assert(t@.subrange(from as int, from as int) =~= p@);
            return Some(from);
        }
        return None;
    }
    let mut j = from;
    while j <= t.len() && p.len() <= t.len() - j
        invariant
            from <= j,
            p@.len() > 0,
            find_sub(t@, p@, from as int) == find_sub(t@, p@, j as int),
        decreases t@.len() + 1 - j,
    {
        if has_at(t, j, p) {
            return Some(j);
        }
        j += 1;
    }
    None
}

/// Last occurrence of `p` in `t` (`str::rfind`).
pub fn rfind_sub_exec(t: &[char], p: &[char]) -> (r: Option<usize>)
    ensures
        match r {
            Some(j) => j == rfind_sub(t@, p@) && j + p@.len() <= t@.len(),
            None => rfind_sub(t@, p@) == -1,
        },
{
    if p.len() > t.len() {
        return None;
    }
    let mut j: usize = t.len() - p.len();
    loop
        invariant
            j + p@.len() <= t@.len(),
            rfind_sub(t@, p@) == rfind_sub_from(t@, p@, j as int),
        decreases j,
    {
        if has_at(t, j, p) {
            return Some(j);
        }
        if j == 0 {
            assert(rfind_sub_from(t@, p@, -1) == -1);
            return None;
        }
        j -= 1;
    }
}


/// Bytes of `c` in UTF-8.
pub open spec fn utf8_width(c: char) -> nat {
    if (c as u32) < 0x80 {
        1
    } else if (c as u32) < 0x800 {
        2
    } else if (c as u32) < 0x10000 {
        3
    } else {
        4
    }
}

/// Bytes of `s` in UTF-8 (`str::len`).
pub open spec fn utf8_len(s: Seq<char>) -> nat
    decreases s.len(),
{
    if s.len() == 0 { 0 } else { utf8_len(s.drop_last()) + utf8_width(s.last()) }
}

/// The character index, at or after `j`, at which byte offset `n` of `s`
/// falls on a character boundary; -1 when `n` splits a character or lies
/// past the end.
pub open spec fn boundary_from(s: Seq<char>, n: nat, j: int) -> int
    decreases s.len() + 1 - j,
{
    if j < 0 || j > s.len() {
        -1
    } else if utf8_len(s.take(j)) == n {
        j
    } else if utf8_len(s.take(j)) > n {
        -1
    } else {
        boundary_from(s, n, j + 1)
    }
}

pub fn utf8_width_exec(c: char) -> (w: usize)
    ensures
        w == utf8_width(c),
{
    let u = c as u32;
    if u < 0x80 {
        1
    } else if u < 0x800 {
        2
    } else if u < 0x10000 {
        3
    } else {
        4
    }
}

/// Whether `s` takes at least `n` bytes in UTF-8.
pub fn utf8_len_at_least(s: &[char], n: usize) -> (r: bool)
    ensures
        r == (utf8_len(s@) >= n),
{
    let mut acc: usize = 0;
    let mut i: usize = 0;
    while i < s.len()
        invariant
            i <= s@.len(),
            acc == (if utf8_len(s@.take(i as int)) < n { utf8_len(s@.take(i as int)) } else { n as nat }),
        decreases s@.len() - i,
    {
        assert(s@.take(i + 1).drop_last() =~= s@.take(i as int));
        let w = utf8_width_exec(s[i]);
        if w < n - acc {
            acc = acc + w;
        } else {
            acc = n;
        }
        i += 1;
    }
    assert(s@.take(i as int) =~= s@);
    acc >= n
}

/// The UTF-8 length of `s`, or `n` when it is longer.
pub fn utf8_len_up_to(s: &[char], n: usize) -> (r: usize)
    ensures
        r == (if utf8_len(s@) < n { utf8_len(s@) } else { n as nat }),
{
    let mut acc: usize = 0;
    let mut i: usize = 0;
    while i < s.len()
        invariant
            i <= s@.len(),
            acc == (if utf8_len(s@.take(i as int)) < n { utf8_len(s@.take(i as int)) } else { n as nat }),
        decreases s@.len() - i,
    {
        assert(s@.take(i + 1).drop_last() =~= s@.take(i as int));
        let w = utf8_width_exec(s[i]);
        if w < n - acc {
            acc = acc + w;
        } else {
            acc = n;
        }
        i += 1;
    }
    assert(s@.take(i as int) =~= s@);
    acc
}

/// A character takes at most four bytes.
pub proof fn lemma_utf8_len_bound(s: Seq<char>)
    ensures
        utf8_len(s) <= 4 * s.len(),
    decreases s.len(),
{
    if s.len() > 0 {
        lemma_utf8_len_bound(s.drop_last());
    }
}

/// The character index at which byte offset `n` falls on a boundary of `s`.
pub fn char_index_at_byte(s: &[char], n: usize) -> (r: Option<usize>)
    requires
        n < usize::MAX - 4,
    ensures
        match r {
            Some(j) => j == boundary_from(s@, n as nat, 0) && j <= s@.len(),
            None => boundary_from(s@, n as nat, 0) == -1,
        },
{
    let mut acc: usize = 0;
    let mut j: usize = 0;
    assert(s@.take(0) =~= Seq::<char>::empty());
    loop
        invariant
            j <= s@.len(),
            acc == utf8_len(s@.take(j as int)),
            acc <= n,
            boundary_from(s@, n as nat, 0) == boundary_from(s@, n as nat, j as int),
            n < usize::MAX - 4,
        decreases s@.len() - j,
    {
        if acc == n {
            return Some(j);
        }
        if j == s.len() {
            assert(boundary_from(s@, n as nat, (j + 1) as int) == -1);
            return None;
        }
        assert(s@.take(j + 1).drop_last() =~= s@.take(j as int));
        let w = utf8_width_exec(s[j]);
        assert(utf8_len(s@.take(j + 1)) == acc + w);
        assert(boundary_from(s@, n as nat, j as int) == boundary_from(s@, n as nat, j + 1));
        acc = acc + w;
        j += 1;
        if acc > n {
            assert(boundary_from(s@, n as nat, j as int) == -1);
            return None;
        }
    }
}


/// The whitespace-separated words of `s` (`str::split_whitespace`).
pub open spec fn words(s: Seq<char>) -> Seq<Seq<char>>
    decreases s.len(),
{
    let t = trim_start(s);
    if t.len() == 0 {
        Seq::empty()
    } else {
        let w = word_len(t);
        proof {
            lemma_trim_start_len(s);
            lemma_trim_start_first(s);
            lemma_word_len(t);
        }
        seq![t.take(w as int)] + words(t.skip(w as int))
    }
}

/// The words of `s` joined by single spaces.
pub open spec fn squeeze_ws(s: Seq<char>) -> Seq<char> {
    join(words(s), " "@)
}

/// `s` cut to `max` characters with `…` appended when it was longer.
pub open spec fn cut_mark(s: Seq<char>, max: nat) -> Seq<char> {
    if s.len() <= max { s } else { s.take(max as int) + seq!['…'] }
}

/// The words of `s`, in order.
pub fn split_words(s: &[char]) -> (out: Vec<Vec<char>>)
    ensures
        views(out@) == words(s@),
{
    let mut out: Vec<Vec<char>> = Vec::new();
    let mut rest = slice_chars(s, 0, s.len());
    assert(rest@ =~= s@);
    loop
        invariant
            views(out@) + words(rest@) == words(s@),
        decreases rest@.len(),
    {
        let a = trim_start_index(rest.as_slice());
        proof {
            lemma_trim_start_len(rest@);
        }
        let t = slice_chars(rest.as_slice(), a, rest.len());
        assert(t@ =~= rest@.skip(a as int));
        if t.len() == 0 {
            assert(views(out@) + Seq::<Seq<char>>::empty() =~= views(out@));
            return out;
        }
        let w = word_len_exec(t.as_slice());
        proof {
            lemma_trim_start_first(rest@);
        }
        let word = slice_chars(t.as_slice(), 0, w);
        let next = slice_chars(t.as_slice(), w, t.len());
        let ghost before = views(out@);
        out.push(word);
        assert(views(out@) =~= before.push(word@));
        assert(words(rest@) == seq![word@] + words(next@));
        assert(views(out@) + words(next@) =~= before + words(rest@));
        rest = next;
    }
}

pub proof fn lemma_trim_start_first(s: Seq<char>)
    ensures
        trim_start(s).len() > 0 ==> !is_ws(trim_start(s)[0]),
    decreases s.len(),
{
    if s.len() > 0 && is_ws(s[0]) {
        lemma_trim_start_first(s.drop_first());
    }
}

/// `s` with runs of whitespace squeezed to one space and the ends trimmed.
pub fn squeeze_whitespace(s: &[char]) -> (out: Vec<char>)
    ensures
        out@ == squeeze_ws(s@),
{
    let ws = split_words(s);
    join_parts(&ws, " ")
}

/// `s` cut to `max` characters with `…` appended when it was longer.
pub fn cut_with_mark(s: &[char], max: usize) -> (out: Vec<char>)
    ensures
        out@ == cut_mark(s@, max as nat),
{
    if s.len() <= max {
        slice_chars(s, 0, s.len())
    } else {
        let mut out = slice_chars(s, 0, max);
        out.push('…');
        out
    }
}


/// What `str::to_lowercase` returns for `s` (full Unicode lowercasing).
pub uninterp spec fn unicode_lowercase(s: Seq<char>) -> Seq<char>;

/// `str::to_lowercase`: Unicode lowercasing, a function of the text alone.
#[verifier::external_body]
pub(crate) fn to_lowercase(s: &str) -> (r: String)
    ensures
        r@ == unicode_lowercase(s@),
{
    s.to_lowercase()
}

pub open spec fn all_digits(s: Seq<char>) -> bool {
    forall|i: int| 0 <= i < s.len() ==> '0' <= #[trigger] s[i] && s[i] <= '9'
}

/// The value of a string of decimal digits.
pub open spec fn digits_value(s: Seq<char>) -> nat
    decreases s.len(),
{
    if s.len() == 0 {
        0
    } else {
        digits_value(s.drop_last()) * 10 + ((s.last() as u32) - 48) as nat
    }
}

/// `from_str` for an unsigned integer type whose largest value is `max`: an
/// optional `+`, then at least one digit, with a value that fits.
pub open spec fn parse_unsigned_spec(s: Seq<char>, max: nat) -> Option<nat> {
    let d = if s.len() > 0 && s[0] == '+' { s.skip(1) } else { s };
    if d.len() == 0 || !all_digits(d) || digits_value(d) > max {
        None
    } else {
        Some(digits_value(d))
    }
}

proof fn lemma_digits_value_prefix(s: Seq<char>, k: int)
    requires
        0 <= k <= s.len(),
        all_digits(s),
    ensures
        digits_value(s.take(k)) <= digits_value(s),
    decreases s.len(),
{
    if k < s.len() {
        assert(s.drop_last().take(k) =~= s.take(k));
        lemma_digits_value_prefix(s.drop_last(), k);
    } else {
        assert(s.take(k) =~= s);
    }
}

/// Parse a decimal `u64` as `str::parse::<u64>` does.
pub fn parse_u64(s: &[char]) -> (r: Option<u64>)
    ensures
        match r {
            Some(n) => parse_unsigned_spec(s@, u64::MAX as nat) == Some(n as nat),
            None => parse_unsigned_spec(s@, u64::MAX as nat) is None,
        },
{
    let start: usize = if s.len() > 0 && s[0] == '+' { 1 } else { 0 };
    let d = slice_chars(s, start, s.len());
    proof {
        if start == 1 {
            assert(d@ =~= s@.skip(1));
        } else {
            assert(d@ =~= s@);
        }
    }
    if d.len() == 0 {
        return None;
    }
    let mut acc: u64 = 0;
    let mut i: usize = 0;
    assert(d@.take(0) =~= Seq::<char>::empty());
    while i < d.len()
        invariant
            i <= d@.len(),
            d@ == (if s@.len() > 0 && s@[0] == '+' { s@.skip(1) } else { s@ }),
            all_digits(d@.take(i as int)),
            acc == digits_value(d@.take(i as int)),
        decreases d@.len() - i,
    {
        let c = d[i];
        if !('0' <= c && c <= '9') {
            assert(!all_digits(d@));
            return None;
        }
        assert(d@.take(i + 1).drop_last() =~= d@.take(i as int));
        let digit = ((c as u32) - 48) as u64;
        let next = match acc.checked_mul(10) {
            Some(m) => m.checked_add(digit),
            None => None,
        };
        match next {
            Some(n) => {
                acc = n;
            },
            None => {
                proof {
                    if all_digits(d@) {
                        lemma_digits_value_prefix(d@, i + 1);
                    }
                }
                return None;
            },
        }
        i += 1;
    }
    assert(d@.take(i as int) =~= d@);
    Some(acc)
}

} // verus!

verus! {

/// Whether `char::is_alphanumeric` holds of `c` (Unicode Alphabetic or
/// Numeric), a function of the character alone.
pub uninterp spec fn unicode_alphanumeric(c: char) -> bool;

/// `char::is_alphanumeric`.
#[verifier::external_body]
pub(crate) fn is_alphanumeric(c: char) -> (b: bool)
    ensures
        b == unicode_alphanumeric(c),
{
    c.is_alphanumeric()
}

} // verus!

verus! {

/// `s` with every occurrence of `pat` (left to right, not overlapping)
/// replaced by `rep` (`str::replace`, for a non-empty pattern).
pub open spec fn replace_all(s: Seq<char>, pat: Seq<char>, rep: Seq<char>) -> Seq<char>
    decreases s.len(),
{
    if pat.len() == 0 {
        s
    } else {
        let i = find_sub(s, pat, 0);
        if i < 0 {
            s
        } else {
            proof {
                lemma_find_sub_range(s, pat, 0);
            }
            s.take(i) + rep + replace_all(s.skip(i + pat.len()), pat, rep)
        }
    }
}

/// Replace every occurrence of `pat` in `s` by `rep`.
pub fn replace_chars(s: &[char], pat: &str, rep: &str) -> (out: Vec<char>)
    requires
        pat@.len() > 0,
    ensures
        out@ == replace_all(s@, pat@, rep@),
{
    let p = chars_of(pat);
    let mut out: Vec<char> = Vec::new();
    let mut rest = slice_chars(s, 0, s.len());
    assert(rest@ =~= s@);
    loop
        invariant
            p@ == pat@,
            pat@.len() > 0,
            out@ + replace_all(rest@, pat@, rep@) == replace_all(s@, pat@, rep@),
        decreases rest@.len(),
    {
        match find_sub_exec(rest.as_slice(), p.as_slice(), 0) {
            None => {
                extend_chars(&mut out, rest.as_slice());
                return out;
            },
            Some(i) => {
                proof {
                    lemma_find_sub_range(rest@, pat@, 0);
                }
                let plen = p.len();
                let rlen = rest.len();
                assert(i + plen <= rlen);
                let head = slice_chars(rest.as_slice(), 0, i);
                let tail = slice_chars(rest.as_slice(), i + plen, rlen);
                let ghost before = out@;
                extend_chars(&mut out, head.as_slice());
                extend_str(&mut out, rep);
                assert(head@ =~= rest@.take(i as int));
                assert(tail@ =~= rest@.skip(i + pat@.len()));
                assert(out@ + replace_all(tail@, pat@, rep@) =~= before + replace_all(rest@, pat@, rep@));
                rest = tail;
            },
        }
    }
}

} // verus!
