//! The skill store: the skills found in the global, repo and project tiers
//! (a later tier overriding an earlier one of the same name), the
//! enable/disable overrides, and the `/skills` commands. Reading the skill
//! folders and the overrides file is the caller's; the store decides.
use vstd::prelude::*;
use crate::observations::{lemma_path_lt_total, lemma_path_lt_transitive, path_less, path_lt, sorted_keys};
use crate::permissions::listed;
use crate::skills::{one_line, one_line_spec, parse_skill, parse_skill_spec, strings_view};
use crate::text::{
    find_sub, find_sub_exec, in_list, is_alphanumeric, split_words, trim_chars, unicode_alphanumeric,
    utf8_len, utf8_len_at_least, views, words, chars_eq, chars_eq_str, chars_of, decimal, decimal_string, extend_chars, extend_str, repeat,
    repeat_chars, string_of, to_lowercase, trim, trim_end, trim_end_index, trim_str, unicode_lowercase,
    starts_with_str, is_whitespace, slice_chars, trim_start, trim_start_index, word_len, word_len_exec, is_ws, join, join_parts, replace_all, replace_chars, truncate_dots, truncate_with_dots,
};

verus! {

broadcast use vstd::string::group_string_axioms;

/// Largest `SKILL.md` read, in bytes.
pub const MAX_SKILL_BYTES: u64 = 65536;

/// At most this many skills are injected into one turn.
pub const MAX_INJECT_SKILLS: usize = 3;

/// A skill body is cut to this many characters when injected.
pub const MAX_BODY_CHARS: usize = 4000;

/// A skill matches a message from this relevance score on.
pub const SELECT_THRESHOLD: u32 = 4;

/// Where a skill was found. The project tier wins over the repo tier, which
/// wins over the global one.
#[derive(Clone, Copy, PartialEq, Eq, Debug, Structural)]
pub enum SkillSource {
    Project,
    Repo,
    Global,
}

pub open spec fn source_label(s: SkillSource) -> Seq<char> {
    match s {
        SkillSource::Project => "project"@,
        SkillSource::Repo => "repo"@,
        SkillSource::Global => "global"@,
    }
}

pub open spec fn source_rank(s: SkillSource) -> nat {
    match s {
        SkillSource::Project => 0,
        SkillSource::Repo => 1,
        SkillSource::Global => 2,
    }
}

impl SkillSource {
    pub fn label(self) -> (s: &'static str)
        ensures
            s@ == source_label(self),
    {
        match self {
            SkillSource::Project => "project",
            SkillSource::Repo => "repo",
            SkillSource::Global => "global",
        }
    }

    /// Lower is higher precedence.
    pub fn rank(self) -> (r: u8)
        ensures
            r as nat == source_rank(self),
    {
        match self {
            SkillSource::Project => 0,
            SkillSource::Repo => 1,
            SkillSource::Global => 2,
        }
    }
}

/// A loaded skill.
pub struct Skill {
    pub name: String,
    pub description: String,
    pub triggers: Vec<String>,
    pub tools: Vec<String>,
    pub enabled_in_file: bool,
    pub body: String,
    pub source: SkillSource,
    pub path: String,
    pub bytes: u64,
}

/// A skill as values.
pub struct SkillView {
    pub name: Seq<char>,
    pub description: Seq<char>,
    pub triggers: Seq<Seq<char>>,
    pub tools: Seq<Seq<char>>,
    pub enabled_in_file: bool,
    pub body: Seq<char>,
    pub source: SkillSource,
    pub path: Seq<char>,
    pub bytes: u64,
}

pub open spec fn skill_view(s: Skill) -> SkillView {
    SkillView {
        name: s.name@,
        description: s.description@,
        triggers: strings_view(s.triggers@),
        tools: strings_view(s.tools@),
        enabled_in_file: s.enabled_in_file,
        body: s.body@,
        source: s.source,
        path: s.path@,
        bytes: s.bytes,
    }
}

pub open spec fn skills_view(v: Seq<Skill>) -> Seq<SkillView> {
    v.map_values(|s: Skill| skill_view(s))
}

/// A skill file read from disk (`path`, in folder `folder` of a tier, of
/// `bytes` bytes with text `content`): the skill, or why it was skipped.
pub open spec fn load_skill_spec(path: Seq<char>, folder: Seq<char>, source: SkillSource, bytes: u64, content: Seq<char>) -> Result<SkillView, Seq<char>> {
    if bytes > MAX_SKILL_BYTES {
        Err("SKILL.md is too large ("@ + decimal(bytes as nat) + " bytes, cap 65536)"@)
    } else {
        match parse_skill_spec(content, folder) {
            Err(e) => Err(e),
            Ok((name, description, triggers, tools, enabled, body)) => if trim(name).len() == 0 {
                Err("skill has no name and folder name is empty"@)
            } else if trim(body).len() == 0 && trim(description).len() == 0 {
                Err("SKILL.md has no usable content"@)
            } else {
                Ok(SkillView { name, description, triggers, tools, enabled_in_file: enabled, body, source, path, bytes })
            },
        }
    }
}

/// Make a skill of a `SKILL.md` file that was read.
pub fn load_skill(path: String, folder: &str, source: SkillSource, bytes: u64, content: &str) -> (r: Result<Skill, String>)
    ensures
        match r {
            Ok(s) => load_skill_spec(path@, folder@, source, bytes, content@) == Ok::<SkillView, Seq<char>>(skill_view(s)),
            Err(e) => load_skill_spec(path@, folder@, source, bytes, content@) == Err::<SkillView, Seq<char>>(e@),
        },
{
    if bytes > MAX_SKILL_BYTES {
        let mut v = chars_of("SKILL.md is too large (");
        let d = decimal_string(bytes);
        extend_chars(&mut v, d.as_slice());
        extend_str(&mut v, " bytes, cap 65536)");
        return Err(string_of(v.as_slice()));
    }
    let p = match parse_skill(content, folder) {
        Ok(p) => p,
        Err(e) => return Err(e),
    };
    let n = trim_str(p.name.as_str());
    if n.len() == 0 {
        return Err(String::from_str("skill has no name and folder name is empty"));
    }
    let b = trim_str(p.body.as_str());
    let d = trim_str(p.description.as_str());
    if b.len() == 0 && d.len() == 0 {
        return Err(String::from_str("SKILL.md has no usable content"));
    }
    Ok(Skill {
        name: p.name,
        description: p.description,
        triggers: p.triggers,
        tools: p.tools,
        enabled_in_file: p.enabled,
        body: p.body,
        source,
        path,
        bytes,
    })
}

// ---------------------------------------------------------------------------
// Merging the tiers
// ---------------------------------------------------------------------------

/// The key a skill name is known by: trimmed and lowercased.
pub open spec fn name_key(name: Seq<char>) -> Seq<char> {
    unicode_lowercase(trim(name))
}

fn name_key_exec(name: &str) -> (k: Vec<char>)
    ensures
        k@ == name_key(name@),
{
    let t = trim_str(name);
    let s = string_of(t.as_slice());
    let l = to_lowercase(s.as_str());
    chars_of(l.as_str())
}

pub open spec fn keys_of(skills: Seq<SkillView>) -> Seq<Seq<char>> {
    skills.map_values(|s: SkillView| name_key(s.name))
}

/// The first position whose key does not sort before `k`.
pub open spec fn position(keys: Seq<Seq<char>>, k: Seq<char>) -> int
    decreases keys.len(),
{
    if keys.len() == 0 {
        0
    } else if !path_lt(keys[0], k) {
        0
    } else {
        1 + position(keys.drop_first(), k)
    }
}

/// The skill `s` replaces under its key, if any.
pub open spec fn replaced(skills: Seq<SkillView>, s: SkillView) -> Option<SkillView> {
    let p = position(keys_of(skills), name_key(s.name));
    if p < skills.len() && keys_of(skills)[p] == name_key(s.name) {
        Some(skills[p])
    } else {
        None
    }
}

/// `skills` with `s` put in by its key: replacing the skill of that key, or
/// inserted in key order.
pub open spec fn upsert(skills: Seq<SkillView>, s: SkillView) -> Seq<SkillView> {
    let p = position(keys_of(skills), name_key(s.name));
    if p < skills.len() && keys_of(skills)[p] == name_key(s.name) {
        skills.update(p, s)
    } else {
        skills.insert(p, s)
    }
}

/// What the caller found in the tier folders, in tier order (global, repo,
/// project).
pub enum Found {
    Loaded(Skill),
    /// A `SKILL.md` that could not be used: its path and why.
    Skipped(String, String),
}

pub enum FoundView {
    Loaded(SkillView),
    Skipped(Seq<char>, Seq<char>),
}

pub open spec fn found_view(f: Found) -> FoundView {
    match f {
        Found::Loaded(s) => FoundView::Loaded(skill_view(s)),
        Found::Skipped(p, e) => FoundView::Skipped(p@, e@),
    }
}

pub open spec fn founds_view(v: Seq<Found>) -> Seq<FoundView> {
    v.map_values(|f: Found| found_view(f))
}

pub open spec fn duplicate_warning(s: SkillView, previous: SkillView) -> Seq<char> {
    "duplicate skill name '"@ + s.name + "' in "@ + source_label(s.source) + " tier: "@ + s.path + " shadows "@ + previous.path
}

/// The skills (in key order) and warnings of what was found: a later skill
/// replaces an earlier one of the same key, silently across tiers and with
/// a warning within one.
pub open spec fn merge(found: Seq<FoundView>) -> (Seq<SkillView>, Seq<Seq<char>>)
    decreases found.len(),
{
    if found.len() == 0 {
        (Seq::empty(), Seq::empty())
    } else {
        let (skills, warnings) = merge(found.drop_last());
        match found.last() {
            FoundView::Skipped(p, e) => (skills, warnings.push("skipped "@ + p + ": "@ + e)),
            FoundView::Loaded(s) => (
                upsert(skills, s),
                match replaced(skills, s) {
                    Some(q) => if q.source == s.source { warnings.push(duplicate_warning(s, q)) } else { warnings },
                    None => warnings,
                },
            ),
        }
    }
}

/// The store as values.
pub struct SkillStoreView {
    pub state_path: Seq<char>,
    pub overrides: Seq<(Seq<char>, bool)>,
    pub skills: Seq<SkillView>,
    pub warnings: Seq<Seq<char>>,
    pub unsaved: bool,
}

/// The skills of a workspace, the overrides, and the warnings of the last
/// load.
pub struct SkillStore {
    state_path: String,
    overrides: Vec<(String, bool)>,
    skills: Vec<Skill>,
    warnings: Vec<String>,
    unsaved: bool,
}

pub open spec fn overrides_view(v: Seq<(String, bool)>) -> Seq<(Seq<char>, bool)> {
    v.map_values(|e: (String, bool)| (e.0@, e.1))
}

impl View for SkillStore {
    type V = SkillStoreView;

    closed spec fn view(&self) -> SkillStoreView {
        SkillStoreView {
            state_path: self.state_path@,
            overrides: overrides_view(self.overrides@),
            skills: skills_view(self.skills@),
            warnings: strings_view(self.warnings@),
            unsaved: self.unsaved,
        }
    }
}

/// The override recorded for `key` (the first, when there are several).
pub open spec fn override_of(ov: Seq<(Seq<char>, bool)>, key: Seq<char>) -> Option<bool>
    decreases ov.len(),
{
    if ov.len() == 0 {
        None
    } else if ov[0].0 == key {
        Some(ov[0].1)
    } else {
        override_of(ov.drop_first(), key)
    }
}

/// Whether a skill is on: its override if it has one, else its file's flag.
pub open spec fn enabled_spec(ov: Seq<(Seq<char>, bool)>, s: SkillView) -> bool {
    match override_of(ov, name_key(s.name)) {
        Some(b) => b,
        None => s.enabled_in_file,
    }
}

/// `ov` with the override of `key` set to `on`.
pub open spec fn set_override(ov: Seq<(Seq<char>, bool)>, key: Seq<char>, on: bool) -> Seq<(Seq<char>, bool)>
    decreases ov.len(),
{
    if ov.len() == 0 {
        seq![(key, on)]
    } else if ov[0].0 == key {
        ov.update(0, (key, on))
    } else {
        seq![ov[0]] + set_override(ov.drop_first(), key, on)
    }
}

/// The index of the skill with key `key`, or -1.
pub open spec fn find_key(skills: Seq<SkillView>, key: Seq<char>) -> int
    decreases skills.len(),
{
    if skills.len() == 0 {
        -1
    } else {
        let k = find_key(skills.drop_last(), key);
        if k >= 0 {
            k
        } else if name_key(skills.last().name) == key {
            skills.len() - 1
        } else {
            -1
        }
    }
}

proof fn lemma_find_key_prefix(skills: Seq<SkillView>, j: int, key: Seq<char>)
    requires
        0 <= j <= skills.len(),
        find_key(skills.take(j), key) >= 0,
    ensures
        find_key(skills, key) == find_key(skills.take(j), key),
    decreases skills.len() - j,
{
    if j == skills.len() {
        assert(skills.take(j) =~= skills);
    } else {
        assert(skills.take(j + 1).drop_last() =~= skills.take(j));
        lemma_find_key_prefix(skills, j + 1, key);
    }
}

proof fn lemma_find_key_range(skills: Seq<SkillView>, key: Seq<char>)
    ensures
        -1 <= find_key(skills, key) < skills.len(),
    decreases skills.len(),
{
    if skills.len() > 0 {
        lemma_find_key_range(skills.drop_last(), key);
    }
}

// ---------------------------------------------------------------------------
// Relevance
// ---------------------------------------------------------------------------

/// Words too common to count as a match.
pub open spec fn stopwords() -> Seq<&'static str> {
    seq![
        "about", "after", "again", "also", "been", "could", "does", "doing", "down", "from", "have",
        "here", "into", "just", "like", "more", "most", "much", "only", "over", "should", "some",
        "such", "than", "that", "their", "them", "then", "there", "these", "they", "this", "those",
        "very", "what", "when", "where", "which", "while", "will", "with", "would", "your",
    ]
}

/// The pieces of `s` between characters that are not alphanumeric
/// (`str::split` with that predicate; empty pieces included).
pub open spec fn alnum_pieces(s: Seq<char>) -> Seq<Seq<char>>
    decreases s.len(),
{
    if s.len() == 0 {
        seq![Seq::empty()]
    } else {
        let p = alnum_pieces(s.drop_last());
        if unicode_alphanumeric(s.last()) {
            p.update(p.len() - 1, p.last().push(s.last()))
        } else {
            p.push(Seq::empty())
        }
    }
}

proof fn lemma_alnum_pieces_len(s: Seq<char>)
    ensures
        alnum_pieces(s).len() >= 1,
    decreases s.len(),
{
    if s.len() > 0 {
        lemma_alnum_pieces_len(s.drop_last());
    }
}

/// A word that counts: at least four bytes and not a stopword.
pub open spec fn significant(w: Seq<char>) -> bool {
    utf8_len(w) >= 4 && !listed(stopwords(), w)
}

pub open spec fn keep_significant(ws: Seq<Seq<char>>) -> Seq<Seq<char>>
    decreases ws.len(),
{
    if ws.len() == 0 {
        Seq::empty()
    } else {
        keep_significant(ws.drop_last()) + if significant(ws.last()) { seq![ws.last()] } else { Seq::empty() }
    }
}

/// The significant words of a text.
pub open spec fn significant_words(text: Seq<char>) -> Seq<Seq<char>> {
    keep_significant(alnum_pieces(text))
}

/// The words of `ws`, each once, in the order they first appear.
pub open spec fn distinct(ws: Seq<Seq<char>>) -> Seq<Seq<char>>
    decreases ws.len(),
{
    if ws.len() == 0 {
        Seq::empty()
    } else {
        let d = distinct(ws.drop_last());
        if d.contains(ws.last()) { d } else { d.push(ws.last()) }
    }
}

/// How many of `ws` are among `pool`.
pub open spec fn hits(ws: Seq<Seq<char>>, pool: Seq<Seq<char>>) -> nat
    decreases ws.len(),
{
    if ws.len() == 0 {
        0
    } else {
        hits(ws.drop_last(), pool) + if pool.contains(ws.last()) { 1nat } else { 0nat }
    }
}

/// A name as a phrase: lowercased, `-` and `_` read as spaces, trimmed.
pub open spec fn name_phrase(name: Seq<char>) -> Seq<char> {
    trim(unicode_lowercase(name).map_values(|c: char| if c == '-' || c == '_' { ' ' } else { c }))
}

pub open spec fn contains_text(t: Seq<char>, p: Seq<char>) -> bool {
    find_sub(t, p, 0) >= 0
}

/// Ten points for each trigger (trimmed, lowercased, two bytes or more)
/// found in the message.
pub open spec fn trigger_points(ts: Seq<Seq<char>>, msg: Seq<char>) -> nat
    decreases ts.len(),
{
    if ts.len() == 0 {
        0
    } else {
        let t = unicode_lowercase(trim(ts.last()));
        trigger_points(ts.drop_last(), msg) + if utf8_len(t) >= 2 && contains_text(msg, t) { 10nat } else { 0nat }
    }
}

/// Two points for each word of the name (four bytes or more) that is a word
/// of the message.
pub open spec fn token_points(tokens: Seq<Seq<char>>, msg_words: Seq<Seq<char>>) -> nat
    decreases tokens.len(),
{
    if tokens.len() == 0 {
        0
    } else {
        token_points(tokens.drop_last(), msg_words) + if utf8_len(tokens.last()) >= 4 && msg_words.contains(tokens.last()) {
            2nat
        } else {
            0nat
        }
    }
}

/// How relevant a skill is to a message (lowercased, with its significant
/// words): twelve points for its name phrase, ten per trigger, two per
/// name word, and one per description word, at most five.
pub open spec fn score_spec(s: SkillView, msg: Seq<char>, msg_words: Seq<Seq<char>>) -> nat {
    let np = name_phrase(s.name);
    let desc = hits(distinct(significant_words(unicode_lowercase(s.description))), msg_words);
    (if utf8_len(np) >= 3 && contains_text(msg, np) { 12nat } else { 0nat }) + trigger_points(s.triggers, msg)
        + token_points(words(np), msg_words) + (if desc > 5 { 5nat } else { desc })
}

pub open spec fn capped(n: nat) -> nat {
    if n > u64::MAX { u64::MAX as nat } else { n }
}

fn significant_words_exec(text: &[char]) -> (out: Vec<Vec<char>>)
    ensures
        views(out@) == significant_words(text@),
{
    let mut done: Vec<Vec<char>> = Vec::new();
    let mut current: Vec<char> = Vec::new();
    let mut i: usize = 0;
    assert(text@.take(0) =~= Seq::<char>::empty());
    assert(views(done@) + seq![current@] =~= alnum_pieces(text@.take(0)));
    while i < text.len()
        invariant
            i <= text@.len(),
            views(done@) + seq![current@] == alnum_pieces(text@.take(i as int)),
        decreases text@.len() - i,
    {
        assert(text@.take(i + 1).drop_last() =~= text@.take(i as int));
        let c = text[i];
        let ghost before = views(done@) + seq![current@];
        proof {
            lemma_alnum_pieces_len(text@.take(i as int));
        }
        if is_alphanumeric(c) {
            current.push(c);
            assert(views(done@) + seq![current@] =~= before.update(before.len() - 1, before.last().push(c)));
        } else {
            let ghost cur = current@;
            let piece = current;
            done.push(piece);
            current = Vec::new();
            assert(views(done@) + seq![current@] =~= before.push(Seq::<char>::empty()));
        }
        i += 1;
    }
    assert(text@.take(i as int) =~= text@);
    let ghost pre = views(done@) + seq![current@];
    done.push(current);
    assert(views(done@) =~= pre);
    let ghost all = views(done@);
    let stop: [&str; 43] = [
        "about", "after", "again", "also", "been", "could", "does", "doing", "down", "from", "have",
        "here", "into", "just", "like", "more", "most", "much", "only", "over", "should", "some",
        "such", "than", "that", "their", "them", "then", "there", "these", "they", "this", "those",
        "very", "what", "when", "where", "which", "while", "will", "with", "would", "your",
    ];
    assert(stop@ == stopwords());
    let mut out: Vec<Vec<char>> = Vec::new();
    let mut j: usize = 0;
    assert(all.take(0) =~= Seq::<Seq<char>>::empty());
    assert(views(out@) =~= Seq::<Seq<char>>::empty());
    while j < done.len()
        invariant
            j <= done@.len(),
            all == views(done@),
            stop@ == stopwords(),
            views(out@) == keep_significant(all.take(j as int)),
        decreases done@.len() - j,
    {
        assert(all.take(j + 1).drop_last() =~= all.take(j as int));
        assert(all[j as int] == done@[j as int]@);
        let ghost before = views(out@);
        if utf8_len_at_least(done[j].as_slice(), 4) && !in_list(done[j].as_slice(), &stop) {
            let mut w: Vec<char> = Vec::new();
            extend_chars(&mut w, done[j].as_slice());
            out.push(w);
            assert(views(out@) =~= before + seq![all[j as int]]);
        } else {
            assert(views(out@) =~= before + Seq::<Seq<char>>::empty());
        }
        j += 1;
    }
    assert(all.take(j as int) =~= all);
    out
}

fn contains_word(pool: &Vec<Vec<char>>, w: &[char]) -> (b: bool)
    ensures
        b == views(pool@).contains(w@),
{
    let mut i: usize = 0;
    while i < pool.len()
        invariant
            i <= pool@.len(),
            forall|j: int| 0 <= j < i ==> views(pool@)[j] != w@,
        decreases pool@.len() - i,
    {
        if chars_eq(pool[i].as_slice(), w) {
            assert(views(pool@)[i as int] == w@);
            return true;
        }
        i += 1;
    }
    false
}

fn distinct_exec(ws: &Vec<Vec<char>>) -> (out: Vec<Vec<char>>)
    ensures
        views(out@) == distinct(views(ws@)),
{
    let ghost wv = views(ws@);
    let mut out: Vec<Vec<char>> = Vec::new();
    let mut i: usize = 0;
    assert(wv.take(0) =~= Seq::<Seq<char>>::empty());
    assert(views(out@) =~= Seq::<Seq<char>>::empty());
    while i < ws.len()
        invariant
            i <= ws@.len(),
            wv == views(ws@),
            views(out@) == distinct(wv.take(i as int)),
        decreases ws@.len() - i,
    {
        assert(wv.take(i + 1).drop_last() =~= wv.take(i as int));
        assert(wv[i as int] == ws@[i as int]@);
        if !contains_word(&out, ws[i].as_slice()) {
            let mut w: Vec<char> = Vec::new();
            extend_chars(&mut w, ws[i].as_slice());
            let ghost before = views(out@);
            out.push(w);
            assert(views(out@) =~= before.push(wv[i as int]));
        }
        i += 1;
    }
    assert(wv.take(i as int) =~= wv);
    out
}

fn hits_exec(ws: &Vec<Vec<char>>, pool: &Vec<Vec<char>>) -> (n: u64)
    ensures
        n == hits(views(ws@), views(pool@)),
{
    let ghost wv = views(ws@);
    let mut n: u64 = 0;
    let mut i: usize = 0;
    while i < ws.len()
        invariant
            i <= ws@.len(),
            wv == views(ws@),
            n == hits(wv.take(i as int), views(pool@)),
            n <= i,
        decreases ws@.len() - i,
    {
        assert(wv.take(i + 1).drop_last() =~= wv.take(i as int));
        assert(wv[i as int] == ws@[i as int]@);
        if contains_word(pool, ws[i].as_slice()) {
            n = n + 1;
        }
        i += 1;
    }
    assert(wv.take(i as int) =~= wv);
    n
}

fn name_phrase_exec(name: &str) -> (out: Vec<char>)
    ensures
        out@ == name_phrase(name@),
{
    let l = to_lowercase(name);
    let c = chars_of(l.as_str());
    let mut v: Vec<char> = Vec::new();
    let mut i: usize = 0;
    while i < c.len()
        invariant
            i <= c@.len(),
            c@ == unicode_lowercase(name@),
            v@ == c@.take(i as int).map_values(|c: char| if c == '-' || c == '_' { ' ' } else { c }),
        decreases c@.len() - i,
    {
        let x = c[i];
        v.push(if x == '-' || x == '_' { ' ' } else { x });
        assert(v@ =~= c@.take(i + 1).map_values(|c: char| if c == '-' || c == '_' { ' ' } else { c }));
        i += 1;
    }
    assert(c@.take(i as int) =~= c@);
    trim_chars(v.as_slice())
}

/// How relevant a skill is to a lowercased message with significant words
/// `msg_words` (saturating at `u64::MAX`).
fn score_skill(s: &Skill, msg: &[char], msg_words: &Vec<Vec<char>>) -> (n: u64)
    ensures
        n == capped(score_spec(skill_view(*s), msg@, views(msg_words@))),
{
    let np = name_phrase_exec(s.name.as_str());
    let mut score: u64 = 0;
    if utf8_len_at_least(np.as_slice(), 3) && find_sub_exec(msg, np.as_slice(), 0).is_some() {
        score = 12;
    }
    let ghost ts = strings_view(s.triggers@);
    let ghost first: nat = if utf8_len(np@) >= 3 && contains_text(msg@, np@) { 12nat } else { 0nat };
    let mut i: usize = 0;
    while i < s.triggers.len()
        invariant
            i <= s.triggers@.len(),
            ts == strings_view(s.triggers@),
            score == capped(first + trigger_points(ts.take(i as int), msg@)),
        decreases s.triggers@.len() - i,
    {
        assert(ts.take(i + 1).drop_last() =~= ts.take(i as int));
        assert(ts[i as int] == s.triggers@[i as int]@);
        let t = trim_str(s.triggers[i].as_str());
        let ts2 = string_of(t.as_slice());
        let l = to_lowercase(ts2.as_str());
        let lc = chars_of(l.as_str());
        if utf8_len_at_least(lc.as_slice(), 2) && find_sub_exec(msg, lc.as_slice(), 0).is_some() {
            score = score.saturating_add(10);
        }
        i += 1;
    }
    assert(ts.take(i as int) =~= ts);
    let ghost second = first + trigger_points(ts, msg@);
    let tokens = split_words(np.as_slice());
    let ghost tv = views(tokens@);
    let mut j: usize = 0;
    while j < tokens.len()
        invariant
            j <= tokens@.len(),
            tv == views(tokens@),
            score == capped(second + token_points(tv.take(j as int), views(msg_words@))),
        decreases tokens@.len() - j,
    {
        assert(tv.take(j + 1).drop_last() =~= tv.take(j as int));
        assert(tv[j as int] == tokens@[j as int]@);
        if utf8_len_at_least(tokens[j].as_slice(), 4) && contains_word(msg_words, tokens[j].as_slice()) {
            score = score.saturating_add(2);
        }
        j += 1;
    }
    assert(tv.take(j as int) =~= tv);
    let dl = to_lowercase(s.description.as_str());
    let dc = chars_of(dl.as_str());
    let dw = significant_words_exec(dc.as_slice());
    let dd = distinct_exec(&dw);
    let h = hits_exec(&dd, msg_words);
    let h5 = if h > 5 { 5 } else { h };
    score.saturating_add(h5)
}

// ---------------------------------------------------------------------------
// Ranking
// ---------------------------------------------------------------------------

/// The enabled skills scoring at least the threshold, with their scores, in
/// store order.
pub open spec fn candidates(skills: Seq<SkillView>, ov: Seq<(Seq<char>, bool)>, msg: Seq<char>, mw: Seq<Seq<char>>) -> Seq<(int, nat)>
    decreases skills.len(),
{
    if skills.len() == 0 {
        Seq::empty()
    } else {
        let s = skills.last();
        let sc = capped(score_spec(s, msg, mw));
        candidates(skills.drop_last(), ov, msg, mw) + if enabled_spec(ov, s) && sc >= SELECT_THRESHOLD {
            seq![(skills.len() - 1, sc)]
        } else {
            Seq::empty()
        }
    }
}

/// Whether candidate `a` ranks before `b`: a higher score, then a
/// higher-precedence tier, then the name (lowercased) first in order.
pub open spec fn ranks_before(skills: Seq<SkillView>, a: (int, nat), b: (int, nat)) -> bool {
    let (ra, rb) = (source_rank(skills[a.0].source), source_rank(skills[b.0].source));
    ||| a.1 > b.1
    ||| a.1 == b.1 && ra < rb
    ||| a.1 == b.1 && ra == rb && path_lt(unicode_lowercase(skills[a.0].name), unicode_lowercase(skills[b.0].name))
}

/// Where `x` goes in a ranking: before the first entry it ranks before.
pub open spec fn place(skills: Seq<SkillView>, acc: Seq<(int, nat)>, x: (int, nat)) -> int
    decreases acc.len(),
{
    if acc.len() == 0 {
        0
    } else if ranks_before(skills, x, acc[0]) {
        0
    } else {
        1 + place(skills, acc.drop_first(), x)
    }
}

/// The candidates in rank order, equal ones keeping their order (a stable
/// sort).
pub open spec fn ranking(skills: Seq<SkillView>, cands: Seq<(int, nat)>) -> Seq<(int, nat)>
    decreases cands.len(),
{
    if cands.len() == 0 {
        Seq::empty()
    } else {
        let r = ranking(skills, cands.drop_last());
        r.insert(place(skills, r, cands.last()), cands.last())
    }
}

/// The skills matching a message, strongest first, with their scores.
pub open spec fn rank_spec(v: SkillStoreView, message: Seq<char>) -> Seq<(int, nat)> {
    let msg = unicode_lowercase(message);
    ranking(v.skills, candidates(v.skills, v.overrides, msg, significant_words(msg)))
}

pub open spec fn ranked_view(r: Seq<(usize, u64)>) -> Seq<(int, nat)> {
    r.map_values(|e: (usize, u64)| (e.0 as int, e.1 as nat))
}

proof fn lemma_place_range(skills: Seq<SkillView>, acc: Seq<(int, nat)>, x: (int, nat))
    ensures
        0 <= place(skills, acc, x) <= acc.len(),
    decreases acc.len(),
{
    if acc.len() > 0 {
        lemma_place_range(skills, acc.drop_first(), x);
    }
}

proof fn lemma_ranking_len(skills: Seq<SkillView>, cands: Seq<(int, nat)>)
    ensures
        ranking(skills, cands).len() == cands.len(),
        forall|i: int| 0 <= i < cands.len() ==> #[trigger] ranking(skills, cands).contains(cands[i]),
        forall|i: int| 0 <= i < ranking(skills, cands).len() ==> cands.contains(#[trigger] ranking(skills, cands)[i]),
    decreases cands.len(),
{
    if cands.len() > 0 {
        let r = ranking(skills, cands.drop_last());
        lemma_ranking_len(skills, cands.drop_last());
        lemma_place_range(skills, r, cands.last());
        let p = place(skills, r, cands.last());
        let n = r.insert(p, cands.last());
        assert forall|i: int| 0 <= i < cands.len() implies #[trigger] n.contains(cands[i]) by {
            if i == cands.len() - 1 {
                assert(n[p] == cands.last());
            } else {
                assert(cands.drop_last()[i] == cands[i]);
                assert(r.contains(cands.drop_last()[i]));
                let j = choose|j: int| 0 <= j < r.len() && r[j] == cands[i];
                if j < p {
                    assert(n[j] == cands[i]);
                } else {
                    assert(n[j + 1] == cands[i]);
                }
            }
        }
        assert forall|i: int| 0 <= i < n.len() implies cands.contains(#[trigger] n[i]) by {
            if i == p {
                assert(cands[cands.len() - 1] == n[i]);
            } else if i < p {
                assert(cands.drop_last().contains(r[i]));
                let j = choose|j: int| 0 <= j < cands.drop_last().len() && cands.drop_last()[j] == r[i];
                assert(cands[j] == n[i]);
            } else {
                assert(cands.drop_last().contains(r[i - 1]));
                let j = choose|j: int| 0 <= j < cands.drop_last().len() && cands.drop_last()[j] == r[i - 1];
                assert(cands[j] == n[i]);
            }
        }
    }
}

proof fn lemma_candidates_index(skills: Seq<SkillView>, ov: Seq<(Seq<char>, bool)>, msg: Seq<char>, mw: Seq<Seq<char>>)
    ensures
        forall|i: int| 0 <= i < candidates(skills, ov, msg, mw).len() ==> 0 <= (#[trigger] candidates(skills, ov, msg, mw)[i]).0 < skills.len(),
    decreases skills.len(),
{
    if skills.len() > 0 {
        lemma_candidates_index(skills.drop_last(), ov, msg, mw);
        let c0 = candidates(skills.drop_last(), ov, msg, mw);
        let c = candidates(skills, ov, msg, mw);
        assert forall|i: int| 0 <= i < c.len() implies 0 <= (#[trigger] c[i]).0 < skills.len() by {
            if i < c0.len() {
                assert(c[i] == c0[i]);
            }
        }
    }
}

// ---------------------------------------------------------------------------
// The selected-skills block
// ---------------------------------------------------------------------------

/// The rules that close the selected-skills block.
pub const SKILL_RULES: &'static str = "<skill_rules>
- The skills above were auto-selected as possibly relevant to this message.
- Use them when they genuinely help; they are guidance, not absolute truth.
- The latest user instructions always override skill instructions.
- Do not claim you used a skill unless it appears in this block.
</skill_rules>
";

/// A value fit for an attribute: quotes, line breaks and angle brackets
/// become `'`.
pub open spec fn attr_spec(v: Seq<char>) -> Seq<char> {
    v.map_values(|c: char| if c == '"' || c == '\n' || c == '\r' || c == '<' || c == '>' { '\'' } else { c })
}

/// Skill text with the block's own tags neutralized, so it can neither
/// close nor forge the block: the closing tags, then every `<skill`.
pub open spec fn fence_spec(t: Seq<char>) -> Seq<char> {
    replace_all(
        replace_all(
            replace_all(
                replace_all(replace_all(t, "<selected_skills>"@, "&lt;selected_skills>"@), "</selected_skills>"@, "&lt;/selected_skills>"@),
                "</skill_rules>"@,
                "&lt;/skill_rules>"@,
            ),
            "</skill>"@,
            "&lt;/skill>"@,
        ),
        "<skill"@,
        "&lt;skill"@,
    )
}

/// One skill's part of the block.
pub open spec fn skill_block(s: SkillView) -> Seq<char> {
    "<skill name=\""@ + attr_spec(s.name) + "\" source=\""@ + source_label(s.source) + "\">\n"@ + (if trim(s.description).len() > 0 {
        "<description>"@ + fence_spec(trim(s.description)) + "</description>\n"@
    } else {
        Seq::empty()
    }) + (if s.tools.len() > 0 {
        "<preferred_tools>"@ + fence_spec(join(s.tools, ", "@)) + "</preferred_tools>\n"@
    } else {
        Seq::empty()
    }) + trim_end(fence_spec(trim_end(truncate_dots(trim(s.body), MAX_BODY_CHARS as nat)))) + "\n</skill>\n"@
}

pub open spec fn blocks(skills: Seq<SkillView>, chosen: Seq<(int, nat)>) -> Seq<char>
    decreases chosen.len(),
{
    if chosen.len() == 0 {
        Seq::empty()
    } else {
        blocks(skills, chosen.drop_last()) + skill_block(skills[chosen.last().0])
    }
}

/// The first three of a ranking.
pub open spec fn top(r: Seq<(int, nat)>) -> Seq<(int, nat)> {
    r.take(if r.len() < 3 { r.len() as int } else { 3 })
}

/// The `<selected_skills>` block for a message, empty when nothing matches.
pub open spec fn selected_context_spec(v: SkillStoreView, message: Seq<char>) -> Seq<char> {
    let chosen = top(rank_spec(v, message));
    if chosen.len() == 0 {
        Seq::empty()
    } else {
        "<selected_skills>\n"@ + blocks(v.skills, chosen) + SKILL_RULES@ + "</selected_skills>"@
    }
}

fn attr_exec(v: &str) -> (out: Vec<char>)
    ensures
        out@ == attr_spec(v@),
{
    let c = chars_of(v);
    let mut out: Vec<char> = Vec::new();
    let mut i: usize = 0;
    while i < c.len()
        invariant
            i <= c@.len(),
            c@ == v@,
            out@ == c@.take(i as int).map_values(
                |c: char| if c == '"' || c == '\n' || c == '\r' || c == '<' || c == '>' { '\'' } else { c },
            ),
        decreases c@.len() - i,
    {
        let x = c[i];
        out.push(if x == '"' || x == '\n' || x == '\r' || x == '<' || x == '>' { '\'' } else { x });
        assert(out@ =~= c@.take(i + 1).map_values(
            |c: char| if c == '"' || c == '\n' || c == '\r' || c == '<' || c == '>' { '\'' } else { c },
        ));
        i += 1;
    }
    assert(c@.take(i as int) =~= c@);
    out
}

fn fence_exec(t: &[char]) -> (out: Vec<char>)
    ensures
        out@ == fence_spec(t@),
{
    proof {
        reveal_strlit("<selected_skills>");
        reveal_strlit("</selected_skills>");
        reveal_strlit("</skill_rules>");
        reveal_strlit("</skill>");
        reveal_strlit("<skill");
    }
    let a = replace_chars(t, "<selected_skills>", "&lt;selected_skills>");
    let b = replace_chars(a.as_slice(), "</selected_skills>", "&lt;/selected_skills>");
    let c = replace_chars(b.as_slice(), "</skill_rules>", "&lt;/skill_rules>");
    let d = replace_chars(c.as_slice(), "</skill>", "&lt;/skill>");
    replace_chars(d.as_slice(), "<skill", "&lt;skill")
}

fn trim_end_vec(v: &[char]) -> (out: Vec<char>)
    ensures
        out@ == trim_end(v@),
{
    let k = trim_end_index(v);
    slice_chars(v, 0, k)
}

fn push_skill_block(out: &mut Vec<char>, s: &Skill)
    ensures
        final(out)@ == old(out)@ + skill_block(skill_view(*s)),
{
    let ghost start = out@;
    extend_str(out, "<skill name=\"");
    let a = attr_exec(s.name.as_str());
    extend_chars(out, a.as_slice());
    extend_str(out, "\" source=\"");
    extend_str(out, s.source.label());
    extend_str(out, "\">\n");
    let ghost head = out@;
    let d = trim_str(s.description.as_str());
    if d.len() > 0 {
        extend_str(out, "<description>");
        let f = fence_exec(d.as_slice());
        extend_chars(out, f.as_slice());
        extend_str(out, "</description>\n");
    }
    let ghost mid = out@;
    assert(mid =~= head + (if trim(s.description@).len() > 0 {
        "<description>"@ + fence_spec(trim(s.description@)) + "</description>\n"@
    } else {
        Seq::empty()
    }));
    if s.tools.len() > 0 {
        extend_str(out, "<preferred_tools>");
        let mut parts: Vec<Vec<char>> = Vec::new();
        let mut i: usize = 0;
        while i < s.tools.len()
            invariant
                i <= s.tools@.len(),
                views(parts@) == strings_view(s.tools@).take(i as int),
            decreases s.tools@.len() - i,
        {
            let ghost before = views(parts@);
            let c = chars_of(s.tools[i].as_str());
            parts.push(c);
            assert(views(parts@) =~= before.push(s.tools@[i as int]@));
            assert(views(parts@) =~= strings_view(s.tools@).take(i + 1));
            i += 1;
        }
        assert(strings_view(s.tools@).take(i as int) =~= strings_view(s.tools@));
        let j = join_parts(&parts, ", ");
        let f = fence_exec(j.as_slice());
        extend_chars(out, f.as_slice());
        extend_str(out, "</preferred_tools>\n");
    }
    let ghost mid2 = out@;
    assert(mid2 =~= mid + (if s.tools@.len() > 0 {
        "<preferred_tools>"@ + fence_spec(join(strings_view(s.tools@), ", "@)) + "</preferred_tools>\n"@
    } else {
        Seq::empty()
    }));
    let b = trim_str(s.body.as_str());
    let t = truncate_with_dots(b.as_slice(), MAX_BODY_CHARS);
    let te = trim_end_vec(t.as_slice());
    let f = fence_exec(te.as_slice());
    let fe = trim_end_vec(f.as_slice());
    extend_chars(out, fe.as_slice());
    extend_str(out, "\n</skill>\n");
    assert(out@ =~= start + skill_block(skill_view(*s)));
}

// ---------------------------------------------------------------------------
// The `/skills` commands
// ---------------------------------------------------------------------------

pub const SKILLS_USAGE: &'static str = "usage:
  /skills                    list discovered skills
  /skills refresh            reload skills from disk
  /skills show <name>        show a skill's metadata and file path
  /skills enable <name>      enable a skill (persisted, source file untouched)
  /skills disable <name>     disable a skill (persisted, source file untouched)
  /skills selected <message> show which skills a message would select";

pub const NO_SKILLS: &'static str = "no skills discovered.\nadd one at skills/<name>/SKILL.md (shared) or biscuits/skills/<name>/SKILL.md (project)";

/// `s` padded with spaces to `w` characters.
pub open spec fn pad(s: Seq<char>, w: nat) -> Seq<char> {
    if s.len() < w { s + repeat(' ', (w - s.len()) as nat) } else { s }
}

/// The longest name, in characters.
pub open spec fn longest_name(skills: Seq<SkillView>) -> nat
    decreases skills.len(),
{
    if skills.len() == 0 {
        0
    } else {
        let m = longest_name(skills.drop_last());
        if skills.last().name.len() > m { skills.last().name.len() } else { m }
    }
}

pub open spec fn name_width(skills: Seq<SkillView>) -> nat {
    if longest_name(skills) < 28 { longest_name(skills) } else { 28 }
}

pub open spec fn list_line_with(on: bool, s: SkillView, w: nat) -> Seq<char> {
    "  ["@ + (if on { "on "@ } else { "off"@ }) + "] "@ + pad(s.name, w) + "  "@ + pad(source_label(s.source), 7) + "  "@
        + one_line_spec(s.description, 60) + "\n"@
}

pub open spec fn list_line(ov: Seq<(Seq<char>, bool)>, s: SkillView, w: nat) -> Seq<char> {
    list_line_with(enabled_spec(ov, s), s, w)
}

fn push_list_line(v: &mut Vec<char>, sk: &Skill, on: bool, w: usize)
    ensures
        final(v)@ == old(v)@ + list_line_with(on, skill_view(*sk), w as nat),
{
    let ghost start = v@;
    extend_str(v, "  [");
    extend_str(v, if on { "on " } else { "off" });
    extend_str(v, "] ");
    pad_exec(v, sk.name.as_str(), w);
    extend_str(v, "  ");
    pad_exec(v, sk.source.label(), 7);
    extend_str(v, "  ");
    let dc = chars_of(sk.description.as_str());
    let ol = one_line(dc.as_slice(), 60);
    extend_chars(v, ol.as_slice());
    extend_str(v, "\n");
    assert(v@ =~= start + list_line_with(on, skill_view(*sk), w as nat));
}

pub open spec fn list_lines(ov: Seq<(Seq<char>, bool)>, skills: Seq<SkillView>, w: nat) -> Seq<char>
    decreases skills.len(),
{
    if skills.len() == 0 { Seq::empty() } else { list_lines(ov, skills.drop_last(), w) + list_line(ov, skills.last(), w) }
}

pub open spec fn warning_lines(ws: Seq<Seq<char>>) -> Seq<char>
    decreases ws.len(),
{
    if ws.len() == 0 { Seq::empty() } else { warning_lines(ws.drop_last()) + "  - "@ + ws.last() + "\n"@ }
}

pub open spec fn warnings_part(ws: Seq<Seq<char>>) -> Seq<char> {
    if ws.len() == 0 { Seq::empty() } else { "\nwarnings:\n"@ + warning_lines(ws) }
}

/// The `/skills` listing: each skill with its status, tier and description,
/// then the warnings of the last load.
pub open spec fn render_list_spec(v: SkillStoreView) -> Seq<char> {
    if v.skills.len() == 0 {
        NO_SKILLS@ + warnings_part(v.warnings)
    } else {
        trim_end("discovered skills ("@ + decimal(v.skills.len()) + "):\n"@ + list_lines(v.overrides, v.skills, name_width(v.skills))
            + warnings_part(v.warnings))
    }
}

/// What `/skills show` tells of a skill.
pub open spec fn show_skill(v: SkillStoreView, s: SkillView) -> Seq<char> {
    "skill: "@ + s.name + "\nsource: "@ + source_label(s.source) + "\nstatus: "@ + (if enabled_spec(v.overrides, s) {
        "enabled"@
    } else {
        "disabled"@
    }) + "\npath: "@ + s.path + "\nsize: "@ + decimal(s.bytes as nat) + " bytes\n"@ + show_tail(s)
}

pub open spec fn show_spec(v: SkillStoreView, name: Seq<char>) -> Seq<char> {
    let n = trim(name);
    if n.len() == 0 {
        "usage: /skills show <name>"@
    } else {
        let k = find_key(v.skills, name_key(n));
        if k < 0 { "no skill named '"@ + n + "'"@ } else { show_skill(v, v.skills[k]) }
    }
}

pub open spec fn selected_line_with(s: SkillView, position: int, score: nat) -> Seq<char> {
    "  "@ + s.name + " ["@ + source_label(s.source) + "] score="@ + decimal(score) + "  "@ + (if position < 3 {
        "injected"@
    } else {
        "matched (over inject limit)"@
    }) + "\n"@
}

pub open spec fn selected_line(v: SkillStoreView, position: int, entry: (int, nat)) -> Seq<char> {
    selected_line_with(v.skills[entry.0], position, entry.1)
}

fn push_selected_line(v: &mut Vec<char>, sk: &Skill, i: usize, score: u64)
    ensures
        final(v)@ == old(v)@ + selected_line_with(skill_view(*sk), i as int, score as nat),
{
    let ghost start = v@;
    extend_str(v, "  ");
    extend_str(v, sk.name.as_str());
    extend_str(v, " [");
    extend_str(v, sk.source.label());
    extend_str(v, "] score=");
    let d = decimal_string(score);
    extend_chars(v, d.as_slice());
    extend_str(v, "  ");
    extend_str(v, if i < MAX_INJECT_SKILLS { "injected" } else { "matched (over inject limit)" });
    extend_str(v, "\n");
    assert(v@ =~= start + selected_line_with(skill_view(*sk), i as int, score as nat));
}

pub open spec fn selected_lines(v: SkillStoreView, r: Seq<(int, nat)>) -> Seq<char>
    decreases r.len(),
{
    if r.len() == 0 { Seq::empty() } else { selected_lines(v, r.drop_last()) + selected_line(v, r.len() - 1, r.last()) }
}

/// What `/skills selected` tells of a message.
pub open spec fn render_selected_spec(v: SkillStoreView, message: Seq<char>) -> Seq<char> {
    let m = trim(message);
    if m.len() == 0 {
        "usage: /skills selected <message>"@
    } else if rank_spec(v, m).len() == 0 {
        "no skills match: "@ + m
    } else {
        trim_end("skills matching: "@ + m + "\n"@ + selected_lines(v, rank_spec(v, m)))
    }
}

/// The first word of `s` and the rest after it.
pub open spec fn next_word_spec(s: Seq<char>) -> (Seq<char>, Seq<char>) {
    let u = trim_start(s);
    let k = word_len(u);
    (u.take(k as int), trim_start(u.skip(k as int)))
}

pub enum SkillsCommand {
    NotMine,
    List,
    Refresh,
    Show(Seq<char>),
    Enable(Seq<char>),
    Disable(Seq<char>),
    Selected(Seq<char>),
    Unknown(Seq<char>),
}

/// The `/skills` command a line of input is.
pub open spec fn skills_command(input: Seq<char>) -> SkillsCommand {
    if !("/skills"@.is_prefix_of(input)) {
        SkillsCommand::NotMine
    } else {
        let rest0 = input.skip(7);
        if rest0.len() > 0 && !is_ws(rest0[0]) {
            SkillsCommand::NotMine
        } else {
            let rest = trim(rest0);
            if rest.len() == 0 || rest == "list"@ || rest == "help"@ {
                SkillsCommand::List
            } else {
                let (action, arg) = next_word_spec(rest);
                if action == "refresh"@ || action == "reload"@ {
                    SkillsCommand::Refresh
                } else if action == "show"@ || action == "info"@ {
                    SkillsCommand::Show(arg)
                } else if action == "enable"@ {
                    SkillsCommand::Enable(arg)
                } else if action == "disable"@ {
                    SkillsCommand::Disable(arg)
                } else if action == "selected"@ || action == "select"@ || action == "match"@ {
                    SkillsCommand::Selected(arg)
                } else {
                    SkillsCommand::Unknown(action)
                }
            }
        }
    }
}

/// What a `/skills` command answers: text, or a request to reload the
/// skills from disk (then [`SkillStore::reloaded_text`]).
pub enum SkillsReply {
    Text(String),
    Reload,
}

pub open spec fn says(r: Option<SkillsReply>, t: Seq<char>) -> bool {
    match r {
        Some(SkillsReply::Text(x)) => x@ == t,
        _ => false,
    }
}

/// What enabling or disabling a skill by name comes to: the answer and the
/// overrides after.
pub open spec fn set_enabled_spec(v: SkillStoreView, name: Seq<char>, on: bool) -> (Seq<char>, Seq<(Seq<char>, bool)>) {
    let n = trim(name);
    if n.len() == 0 {
        ("usage: /skills "@ + (if on { "enable"@ } else { "disable"@ }) + " <name>"@, v.overrides)
    } else {
        let k = find_key(v.skills, name_key(n));
        if k < 0 {
            ("no skill named '"@ + n + "'"@, v.overrides)
        } else {
            let display = v.skills[k].name;
            (
                "skill '"@ + display + "' "@ + (if on { "enabled"@ } else { "disabled"@ }),
                set_override(v.overrides, name_key(display), on),
            )
        }
    }
}

fn pad_exec(v: &mut Vec<char>, s: &str, w: usize)
    ensures
        final(v)@ == old(v)@ + pad(s@, w as nat),
{
    let c = chars_of(s);
    extend_chars(v, c.as_slice());
    if c.len() < w {
        let sp = repeat_chars(' ', w - c.len());
        extend_chars(v, sp.as_slice());
    }
}

fn next_word(s: &[char]) -> (r: (Vec<char>, Vec<char>))
    ensures
        (r.0@, r.1@) == next_word_spec(s@),
{
    let a = trim_start_index(s);
    let u = slice_chars(s, a, s.len());
    assert(u@ =~= s@.skip(a as int));
    let k = word_len_exec(u.as_slice());
    let w = slice_chars(u.as_slice(), 0, k);
    let rest = slice_chars(u.as_slice(), k, u.len());
    let b = trim_start_index(rest.as_slice());
    let r2 = slice_chars(rest.as_slice(), b, rest.len());
    assert(r2@ =~= rest@.skip(b as int));
    assert(rest@ =~= u@.skip(k as int));
    (w, r2)
}

fn push_warnings(out: &mut Vec<char>, ws: &Vec<String>)
    ensures
        final(out)@ == old(out)@ + warnings_part(strings_view(ws@)),
{
    let ghost start = out@;
    if ws.len() == 0 {
        assert(out@ =~= start + Seq::<char>::empty());
        return;
    }
    extend_str(out, "\nwarnings:\n");
    let ghost head = out@;
    let ghost wv = strings_view(ws@);
    let mut i: usize = 0;
    while i < ws.len()
        invariant
            i <= ws@.len(),
            wv == strings_view(ws@),
            out@ == head + warning_lines(wv.take(i as int)),
        decreases ws@.len() - i,
    {
        assert(wv.take(i + 1).drop_last() =~= wv.take(i as int));
        extend_str(out, "  - ");
        extend_str(out, ws[i].as_str());
        extend_str(out, "\n");
        i += 1;
    }
    assert(wv.take(i as int) =~= wv);
    assert(out@ =~= start + warnings_part(wv));
}

fn joined_strings(v: &Vec<String>, sep: &str) -> (out: Vec<char>)
    ensures
        out@ == join(strings_view(v@), sep@),
{
    let mut parts: Vec<Vec<char>> = Vec::new();
    let mut i: usize = 0;
    while i < v.len()
        invariant
            i <= v@.len(),
            views(parts@) == strings_view(v@).take(i as int),
        decreases v@.len() - i,
    {
        let ghost before = views(parts@);
        let c = chars_of(v[i].as_str());
        parts.push(c);
        assert(views(parts@) =~= before.push(v@[i as int]@));
        assert(views(parts@) =~= strings_view(v@).take(i + 1));
        i += 1;
    }
    assert(strings_view(v@).take(i as int) =~= strings_view(v@));
    join_parts(&parts, sep)
}

proof fn lemma_set_override_at(ov: Seq<(Seq<char>, bool)>, key: Seq<char>, on: bool, i: int)
    requires
        0 <= i < ov.len(),
        ov[i].0 == key,
        forall|j: int| 0 <= j < i ==> (#[trigger] ov[j]).0 != key,
    ensures
        set_override(ov, key, on) == ov.update(i, (key, on)),
    decreases i,
{
    if i > 0 {
        let t = ov.drop_first();
        assert forall|j: int| 0 <= j < i - 1 implies (#[trigger] t[j]).0 != key by {
            assert(t[j] == ov[j + 1]);
        }
        lemma_set_override_at(t, key, on, i - 1);
        assert(seq![ov[0]] + t.update(i - 1, (key, on)) =~= ov.update(i, (key, on)));
    }
}

proof fn lemma_set_override_new(ov: Seq<(Seq<char>, bool)>, key: Seq<char>, on: bool)
    requires
        forall|j: int| 0 <= j < ov.len() ==> (#[trigger] ov[j]).0 != key,
    ensures
        set_override(ov, key, on) == ov.push((key, on)),
    decreases ov.len(),
{
    if ov.len() > 0 {
        let t = ov.drop_first();
        assert forall|j: int| 0 <= j < t.len() implies (#[trigger] t[j]).0 != key by {
            assert(t[j] == ov[j + 1]);
        }
        lemma_set_override_new(t, key, on);
        assert(seq![ov[0]] + t.push((key, on)) =~= ov.push((key, on)));
    } else {
        assert(seq![(key, on)] =~= ov.push((key, on)));
    }
}

/// The lists, description and body preview of `/skills show`.
pub open spec fn show_tail(s: SkillView) -> Seq<char> {
    (if s.triggers.len() > 0 {
        "triggers: "@ + join(s.triggers, ", "@) + "\n"@
    } else {
        Seq::empty()
    }) + (if s.tools.len() > 0 {
        "preferred tools: "@ + join(s.tools, ", "@) + "\n"@
    } else {
        Seq::empty()
    }) + (if trim(s.description).len() > 0 { "description: "@ + trim(s.description) + "\n"@ } else { Seq::empty() })
        + preview_spec(s.body)
}

fn push_show_tail(v: &mut Vec<char>, sk: &Skill)
    ensures
        final(v)@ == old(v)@ + show_tail(skill_view(*sk)),
{
    let ghost p1 = v@;
    if sk.triggers.len() > 0 {
        extend_str(v, "triggers: ");
        let j = joined_strings(&sk.triggers, ", ");
        extend_chars(v, j.as_slice());
        extend_str(v, "\n");
    }
    let ghost p2 = v@;
    assert(p2 =~= p1 + (if sk.triggers@.len() > 0 {
        "triggers: "@ + join(strings_view(sk.triggers@), ", "@) + "\n"@
    } else {
        Seq::empty()
    }));
    if sk.tools.len() > 0 {
        extend_str(v, "preferred tools: ");
        let j = joined_strings(&sk.tools, ", ");
        extend_chars(v, j.as_slice());
        extend_str(v, "\n");
    }
    let ghost p3 = v@;
    assert(p3 =~= p2 + (if sk.tools@.len() > 0 {
        "preferred tools: "@ + join(strings_view(sk.tools@), ", "@) + "\n"@
    } else {
        Seq::empty()
    }));
    let dt = trim_str(sk.description.as_str());
    if dt.len() > 0 {
        extend_str(v, "description: ");
        extend_chars(v, dt.as_slice());
        extend_str(v, "\n");
    }
    let ghost p4 = v@;
    assert(p4 =~= p3 + (if trim(sk.description@).len() > 0 {
        "description: "@ + trim(sk.description@) + "\n"@
    } else {
        Seq::empty()
    }));
    push_preview(v, sk.body.as_str());
    assert(v@ =~= p1 + show_tail(skill_view(*sk)));
}

pub open spec fn preview_spec(body: Seq<char>) -> Seq<char> {
    let preview = trim(body);
    if preview.len() == 0 {
        "body: (none)"@
    } else if preview.len() <= 400 {
        "body:\n"@ + preview
    } else {
        "body preview ("@ + decimal(preview.len()) + " chars total):\n"@ + truncate_dots(preview, 400)
    }
}

fn push_preview(v: &mut Vec<char>, body: &str)
    ensures
        final(v)@ == old(v)@ + preview_spec(body@),
{
    let preview = trim_str(body);
    if preview.len() == 0 {
        extend_str(v, "body: (none)");
    } else if preview.len() <= 400 {
        extend_str(v, "body:\n");
        extend_chars(v, preview.as_slice());
    } else {
        extend_str(v, "body preview (");
        let c = decimal_string(preview.len() as u64);
        extend_chars(v, c.as_slice());
        extend_str(v, " chars total):\n");
        let t = truncate_with_dots(preview.as_slice(), 400);
        extend_chars(v, t.as_slice());
    }
}

// ---------------------------------------------------------------------------
// Laws
// ---------------------------------------------------------------------------

proof fn lemma_position(keys: Seq<Seq<char>>, k: Seq<char>)
    ensures
        0 <= position(keys, k) <= keys.len(),
        forall|j: int| 0 <= j < position(keys, k) ==> path_lt(#[trigger] keys[j], k),
        position(keys, k) < keys.len() ==> !path_lt(keys[position(keys, k)], k),
    decreases keys.len(),
{
    if keys.len() > 0 && path_lt(keys[0], k) {
        let t = keys.drop_first();
        lemma_position(t, k);
        assert forall|j: int| 0 <= j < position(keys, k) implies path_lt(#[trigger] keys[j], k) by {
            if j > 0 {
                assert(keys[j] == t[j - 1]);
            }
        }
        if position(keys, k) < keys.len() {
            assert(keys[position(keys, k)] == t[position(t, k)]);
        }
    }
}

proof fn lemma_upsert_sorted(skills: Seq<SkillView>, s: SkillView)
    requires
        sorted_keys(keys_of(skills)),
    ensures
        sorted_keys(keys_of(upsert(skills, s))),
        upsert(skills, s).len() >= skills.len(),
{
    let ko = keys_of(skills);
    let k = name_key(s.name);
    lemma_position(ko, k);
    let p = position(ko, k);
    if p < skills.len() && ko[p] == k {
        assert(keys_of(upsert(skills, s)) =~= ko.update(p, k));
        assert(ko.update(p, k) =~= ko);
    } else {
        let kn = keys_of(upsert(skills, s));
        assert(kn =~= ko.insert(p, k));
        if p < skills.len() {
            lemma_path_lt_total(ko[p], k);
        }
        assert forall|a: int, b: int| 0 <= a < b < kn.len() implies path_lt(#[trigger] kn[a], #[trigger] kn[b]) by {
            if b < p {
            } else if a < p && b == p {
            } else if a < p && b > p {
                assert(kn[b] == ko[b - 1]);
                if b - 1 > p {
                    lemma_path_lt_transitive(k, ko[p], ko[b - 1]);
                }
                lemma_path_lt_transitive(ko[a], k, ko[b - 1]);
            } else if a == p {
                assert(kn[b] == ko[b - 1]);
                if b - 1 > p {
                    lemma_path_lt_transitive(k, ko[p], ko[b - 1]);
                }
            } else {
                assert(kn[a] == ko[a - 1]);
                assert(kn[b] == ko[b - 1]);
            }
        }
    }
}

/// Description words count: a skill scores at least one point for each
/// distinct significant word of its description that the message also has,
/// up to five, whatever its name and triggers; so an enabled skill whose
/// description shares four or more such words with the message reaches the
/// selection threshold and is a candidate.
pub proof fn law_description_words_count(s: SkillView, ov: Seq<(Seq<char>, bool)>, msg: Seq<char>, mw: Seq<Seq<char>>)
    ensures
        score_spec(s, msg, mw) >= (if hits(distinct(significant_words(unicode_lowercase(s.description))), mw) > 5 {
            5
        } else {
            hits(distinct(significant_words(unicode_lowercase(s.description))), mw)
        }),
        enabled_spec(ov, s) && hits(distinct(significant_words(unicode_lowercase(s.description))), mw) >= 4
            ==> candidates(seq![s], ov, msg, mw).len() == 1,
{
    let one = seq![s];
    assert(one.drop_last() =~= Seq::<SkillView>::empty());
    assert(one.last() == s);
    assert(one.len() == 1);
    assert(candidates(Seq::<SkillView>::empty(), ov, msg, mw) == Seq::<(int, nat)>::empty());
    if enabled_spec(ov, s) && hits(distinct(significant_words(unicode_lowercase(s.description))), mw) >= 4 {
        assert(score_spec(s, msg, mw) >= 4);
        assert(capped(score_spec(s, msg, mw)) >= SELECT_THRESHOLD);
        assert(candidates(one, ov, msg, mw) =~= Seq::<(int, nat)>::empty() + seq![(0int, capped(score_spec(s, msg, mw)))]);
    }
}

/// However the tiers are loaded, the skills come out in key order with no
/// key twice: each name (trimmed, lowercased) names one skill, and a later
/// tier's skill replaces an earlier one of the same name.
pub proof fn law_loaded_skills_have_unique_sorted_names(found: Seq<FoundView>)
    ensures
        sorted_keys(keys_of(merge(found).0)),
    decreases found.len(),
{
    if found.len() > 0 {
        law_loaded_skills_have_unique_sorted_names(found.drop_last());
        match found.last() {
            FoundView::Loaded(s) => lemma_upsert_sorted(merge(found.drop_last()).0, s),
            FoundView::Skipped(_, _) => {},
        }
    }
}

impl SkillStore {
    /// A store saving its overrides at `state_path`, with the overrides read
    /// from it and nothing loaded yet.
    pub fn new(state_path: String, overrides: Vec<(String, bool)>) -> (s: Self)
        ensures
            s@ == (SkillStoreView {
                state_path: state_path@,
                overrides: overrides_view(overrides@),
                skills: Seq::empty(),
                warnings: Seq::empty(),
                unsaved: false,
            }),
    {
        let s = SkillStore { state_path, overrides, skills: Vec::new(), warnings: Vec::new(), unsaved: false };
        assert(skills_view(s.skills@) =~= Seq::<SkillView>::empty());
        assert(strings_view(s.warnings@) =~= Seq::<Seq<char>>::empty());
        s
    }

    /// Where the overrides are saved.
    pub fn state_path(&self) -> (p: &str)
        ensures
            p@ == self@.state_path,
    {
        self.state_path.as_str()
    }

    /// The overrides to save, by key.
    pub fn overrides(&self) -> (o: &Vec<(String, bool)>)
        ensures
            overrides_view(o@) == self@.overrides,
    {
        &self.overrides
    }

    /// The skills, in key order.
    pub fn skills(&self) -> (s: &Vec<Skill>)
        ensures
            skills_view(s@) == self@.skills,
    {
        &self.skills
    }

    /// The warnings of the last load.
    pub fn warnings(&self) -> (w: &Vec<String>)
        ensures
            strings_view(w@) == self@.warnings,
    {
        &self.warnings
    }

    /// Whether the overrides changed since they were last saved.
    pub fn needs_save(&self) -> (b: bool)
        ensures
            b == self@.unsaved,
    {
        self.unsaved
    }

    /// Record that the overrides were saved.
    pub fn mark_saved(&mut self)
        ensures
            final(self)@ == (SkillStoreView { unsaved: false, ..old(self)@ }),
    {
        self.unsaved = false;
    }

    /// The first position in the skills whose key does not sort before `k`.
    fn position_of(&self, k: &Vec<char>) -> (p: usize)
        ensures
            p as int == position(keys_of(skills_view(self.skills@)), k@),
            p <= self.skills@.len(),
    {
        let ghost keys = keys_of(skills_view(self.skills@));
        let mut i: usize = 0;
        assert(keys.skip(0) =~= keys);
        while i < self.skills.len()
            invariant
                i <= self.skills@.len(),
                keys == keys_of(skills_view(self.skills@)),
                keys.len() == self.skills@.len(),
                position(keys, k@) == i + position(keys.skip(i as int), k@),
            decreases self.skills@.len() - i,
        {
            assert(keys.skip(i as int)[0] == keys[i as int]);
            assert(keys.skip(i as int).drop_first() =~= keys.skip(i + 1));
            let key = name_key_exec(self.skills[i].name.as_str());
            if !path_less(key.as_slice(), k.as_slice()) {
                return i;
            }
            i += 1;
        }
        i
    }

    /// Put a loaded skill in by its key; the skill it replaced, if any.
    fn upsert_skill(&mut self, s: Skill) -> (prev: Option<Skill>)
        ensures
            skills_view(final(self).skills@) == upsert(skills_view(old(self).skills@), skill_view(s)),
            match prev {
                Some(q) => replaced(skills_view(old(self).skills@), skill_view(s)) == Some(skill_view(q)),
                None => replaced(skills_view(old(self).skills@), skill_view(s)) is None,
            },
            final(self).overrides@ == old(self).overrides@,
            final(self).warnings@ == old(self).warnings@,
            final(self).state_path@ == old(self).state_path@,
            final(self).unsaved == old(self).unsaved,
    {
        let k = name_key_exec(s.name.as_str());
        let p = self.position_of(&k);
        let ghost old_skills = skills_view(self.skills@);
        let same = if p < self.skills.len() {
            let pk = name_key_exec(self.skills[p].name.as_str());
            chars_eq(pk.as_slice(), k.as_slice())
        } else {
            false
        };
        let ghost sv = skill_view(s);
        if same {
            let prev = self.skills.remove(p);
            self.skills.insert(p, s);
            assert(skills_view(self.skills@) =~= old_skills.update(p as int, sv));
            Some(prev)
        } else {
            self.skills.insert(p, s);
            assert(skills_view(self.skills@) =~= old_skills.insert(p as int, sv));
            None
        }
    }

    /// Load what was found in the tiers, replacing the skills and warnings
    /// of any earlier load.
    pub fn load(&mut self, found: Vec<Found>)
        ensures
            (final(self)@.skills, final(self)@.warnings) == merge(founds_view(found@)),
            final(self)@.overrides == old(self)@.overrides,
            final(self)@.state_path == old(self)@.state_path,
            final(self)@.unsaved == old(self)@.unsaved,
    {
        let ghost fv = founds_view(found@);
        self.skills = Vec::new();
        self.warnings = Vec::new();
        assert(skills_view(self.skills@) =~= Seq::<SkillView>::empty());
        assert(strings_view(self.warnings@) =~= Seq::<Seq<char>>::empty());
        assert(fv.take(0) =~= Seq::<FoundView>::empty());
        let mut rest = found;
        let mut i: usize = 0;
        let n = rest.len();
        while rest.len() > 0
            invariant
                i + rest@.len() == n,
                n == fv.len(),
                founds_view(rest@) == fv.skip(i as int),
                (skills_view(self.skills@), strings_view(self.warnings@)) == merge(fv.take(i as int)),
                self.overrides@ == old(self).overrides@,
                self.state_path@ == old(self).state_path@,
                self.unsaved == old(self).unsaved,
            decreases rest@.len(),
        {
            let ghost before = rest@;
            let f = rest.remove(0);
            assert(rest@ =~= before.skip(1));
            assert(founds_view(rest@) =~= fv.skip(i + 1)) by {
                assert(founds_view(before) == fv.skip(i as int));
                assert forall|j: int| 0 <= j < rest@.len() implies #[trigger] founds_view(rest@)[j]
                    == fv.skip(i + 1)[j] by {
                    assert(rest@[j] == before[j + 1]);
                    assert(founds_view(before)[j + 1] == fv.skip(i as int)[j + 1]);
                }
            }
            assert(fv.take(i + 1).drop_last() =~= fv.take(i as int));
            assert(fv.skip(i as int)[0] == found_view(f));
            assert(fv.take(i + 1).last() == found_view(f));
            let ghost ws = strings_view(self.warnings@);
            match f {
                Found::Skipped(p, e) => {
                    let mut v = chars_of("skipped ");
                    extend_str(&mut v, p.as_str());
                    extend_str(&mut v, ": ");
                    extend_str(&mut v, e.as_str());
                    let w = string_of(v.as_slice());
                    self.warnings.push(w);
                    assert(strings_view(self.warnings@) =~= ws.push("skipped "@ + p@ + ": "@ + e@));
                },
                Found::Loaded(s) => {
                    let source = s.source;
                    let name = s.name.clone();
                    let path = s.path.clone();
                    let prev = self.upsert_skill(s);
                    match prev {
                        Some(q) => {
                            if q.source == source {
                                let mut v = chars_of("duplicate skill name '");
                                extend_str(&mut v, name.as_str());
                                extend_str(&mut v, "' in ");
                                extend_str(&mut v, source.label());
                                extend_str(&mut v, " tier: ");
                                extend_str(&mut v, path.as_str());
                                extend_str(&mut v, " shadows ");
                                extend_str(&mut v, q.path.as_str());
                                let w = string_of(v.as_slice());
                                self.warnings.push(w);
                                assert(strings_view(self.warnings@) =~= ws.push(
                                    duplicate_warning(fv[i as int]->Loaded_0, skill_view(q)),
                                ));
                            }
                        },
                        None => {},
                    }
                },
            }
            i += 1;
        }
        assert(fv.take(i as int) =~= fv);
    }

    /// The index of the skill named `name` (by key).
    fn find(&self, name: &str) -> (r: Option<usize>)
        ensures
            match r {
                Some(k) => find_key(skills_view(self.skills@), name_key(name@)) == k && k < self.skills@.len(),
                None => find_key(skills_view(self.skills@), name_key(name@)) == -1,
            },
    {
        let key = name_key_exec(name);
        let ghost sv = skills_view(self.skills@);
        let mut i: usize = 0;
        assert(sv.take(0) =~= Seq::<SkillView>::empty());
        while i < self.skills.len()
            invariant
                i <= self.skills@.len(),
                sv == skills_view(self.skills@),
                key@ == name_key(name@),
                find_key(sv.take(i as int), key@) == -1,
            decreases self.skills@.len() - i,
        {
            assert(sv.take(i + 1).drop_last() =~= sv.take(i as int));
            let k = name_key_exec(self.skills[i].name.as_str());
            if chars_eq(k.as_slice(), key.as_slice()) {
                proof {
                    lemma_find_key_prefix(sv, i + 1, key@);
                }
                return Some(i);
            }
            i += 1;
        }
        assert(sv.take(i as int) =~= sv);
        None
    }


    /// Whether candidate `a` ranks before `b`.
    fn ranks_before_exec(&self, a: (usize, u64), b: (usize, u64)) -> (r: bool)
        requires
            a.0 < self.skills@.len(),
            b.0 < self.skills@.len(),
        ensures
            r == ranks_before(skills_view(self.skills@), (a.0 as int, a.1 as nat), (b.0 as int, b.1 as nat)),
    {
        if a.1 != b.1 {
            return a.1 > b.1;
        }
        let ra = self.skills[a.0].source.rank();
        let rb = self.skills[b.0].source.rank();
        if ra != rb {
            return ra < rb;
        }
        let la = to_lowercase(self.skills[a.0].name.as_str());
        let lb = to_lowercase(self.skills[b.0].name.as_str());
        let ca = chars_of(la.as_str());
        let cb = chars_of(lb.as_str());
        path_less(ca.as_slice(), cb.as_slice())
    }

    /// The enabled skills that match a message, strongest first, with their
    /// scores.
    fn rank(&self, message: &str) -> (r: Vec<(usize, u64)>)
        ensures
            ranked_view(r@) == rank_spec(self@, message@),
            forall|i: int| 0 <= i < r@.len() ==> (#[trigger] r@[i]).0 < self.skills@.len(),
    {
        let lower = to_lowercase(message);
        let msg = chars_of(lower.as_str());
        let mw = significant_words_exec(msg.as_slice());
        let ghost sv = skills_view(self.skills@);
        let ghost ov = overrides_view(self.overrides@);
        let ghost cands = candidates(sv, ov, msg@, views(mw@));
        let mut c: Vec<(usize, u64)> = Vec::new();
        let mut i: usize = 0;
        assert(sv.take(0) =~= Seq::<SkillView>::empty());
        assert(ranked_view(c@) =~= Seq::<(int, nat)>::empty());
        while i < self.skills.len()
            invariant
                i <= self.skills@.len(),
                sv == skills_view(self.skills@),
                ov == overrides_view(self.overrides@),
                ranked_view(c@) == candidates(sv.take(i as int), ov, msg@, views(mw@)),
                forall|k: int| 0 <= k < c@.len() ==> (#[trigger] c@[k]).0 < i,
            decreases self.skills@.len() - i,
        {
            assert(sv.take(i + 1).drop_last() =~= sv.take(i as int));
            assert(sv.take(i + 1).last() == skill_view(self.skills@[i as int]));
            let score = score_skill(&self.skills[i], msg.as_slice(), &mw);
            let ghost before = ranked_view(c@);
            if self.effective_enabled(&self.skills[i]) && score >= 4 {
                c.push((i, score));
                assert(ranked_view(c@) =~= before + seq![(i as int, score as nat)]);
            } else {
                assert(ranked_view(c@) =~= before + Seq::<(int, nat)>::empty());
            }
            i += 1;
        }
        assert(sv.take(i as int) =~= sv);
        let ghost cv = ranked_view(c@);
        let mut r: Vec<(usize, u64)> = Vec::new();
        let mut j: usize = 0;
        assert(cv.take(0) =~= Seq::<(int, nat)>::empty());
        assert(ranked_view(r@) =~= Seq::<(int, nat)>::empty());
        while j < c.len()
            invariant
                j <= c@.len(),
                cv == ranked_view(c@),
                sv == skills_view(self.skills@),
                forall|k: int| 0 <= k < c@.len() ==> (#[trigger] c@[k]).0 < self.skills@.len(),
                forall|k: int| 0 <= k < r@.len() ==> (#[trigger] r@[k]).0 < self.skills@.len(),
                ranked_view(r@) == ranking(sv, cv.take(j as int)),
            decreases c@.len() - j,
        {
            assert(cv.take(j + 1).drop_last() =~= cv.take(j as int));
            let x = c[j];
            assert(cv.take(j + 1).last() == (x.0 as int, x.1 as nat));
            let ghost rv = ranked_view(r@);
            let mut p: usize = 0;
            assert(rv.skip(0) =~= rv);
            let mut found = false;
            while p < r.len() && !found
                invariant
                    p <= r@.len(),
                    rv == ranked_view(r@),
                    x.0 < self.skills@.len(),
                    forall|k: int| 0 <= k < r@.len() ==> (#[trigger] r@[k]).0 < self.skills@.len(),
                    sv == skills_view(self.skills@),
                    !found ==> place(sv, rv, (x.0 as int, x.1 as nat)) == p + place(sv, rv.skip(p as int), (x.0 as int, x.1 as nat)),
                    found ==> place(sv, rv, (x.0 as int, x.1 as nat)) == p,
                decreases r@.len() - p + (if found { 0int } else { 1int }),
            {
                assert(rv.skip(p as int)[0] == rv[p as int]);
                assert(rv.skip(p as int).drop_first() =~= rv.skip(p + 1));
                if self.ranks_before_exec(x, r[p]) {
                    found = true;
                } else {
                    p += 1;
                }
            }
            if !found {
                assert(rv.skip(p as int) =~= Seq::<(int, nat)>::empty());
            }
            r.insert(p, x);
            assert(ranked_view(r@) =~= rv.insert(p as int, (x.0 as int, x.1 as nat)));
            j += 1;
        }
        assert(cv.take(j as int) =~= cv);
        r
    }

    /// The skills that would be injected for a message: the three that
    /// match it best.
    pub fn selected(&self, message: &str) -> (out: Vec<&Skill>)
        ensures
            out@.len() == (if rank_spec(self@, message@).len() < 3 { rank_spec(self@, message@).len() } else { 3 }),
            forall|i: int| 0 <= i < out@.len() ==> skill_view(*(#[trigger] out@[i])) == self@.skills[rank_spec(self@, message@)[i].0],
    {
        let r = self.rank(message);
        let mut out: Vec<&Skill> = Vec::new();
        let mut i: usize = 0;
        while i < r.len() && i < MAX_INJECT_SKILLS
            invariant
                i <= r@.len(),
                i <= 3,
                out@.len() == i,
                ranked_view(r@) == rank_spec(self@, message@),
                forall|k: int| 0 <= k < r@.len() ==> (#[trigger] r@[k]).0 < self.skills@.len(),
                forall|k: int| 0 <= k < i ==> skill_view(*(#[trigger] out@[k])) == self@.skills[rank_spec(self@, message@)[k].0],
            decreases r@.len() - i,
        {
            let idx = r[i].0;
            out.push(&self.skills[idx]);
            assert(ranked_view(r@)[i as int].0 == idx);
            i += 1;
        }
        out
    }


    /// The `<selected_skills>` system block for a message, or an empty
    /// string when no enabled skill matches.
    pub fn selected_context(&self, message: &str) -> (out: String)
        ensures
            out@ == selected_context_spec(self@, message@),
    {
        let r = self.rank(message);
        if r.len() == 0 {
            return String::new();
        }
        let ghost chosen = top(ranked_view(r@));
        let mut v = chars_of("<selected_skills>\n");
        let ghost head = v@;
        let mut i: usize = 0;
        while i < r.len() && i < MAX_INJECT_SKILLS
            invariant
                i <= r@.len(),
                i <= 3,
                chosen == top(ranked_view(r@)),
                ranked_view(r@) == rank_spec(self@, message@),
                forall|k: int| 0 <= k < r@.len() ==> (#[trigger] r@[k]).0 < self.skills@.len(),
                v@ == head + blocks(self@.skills, chosen.take(i as int)),
            decreases r@.len() - i,
        {
            let idx = r[i].0;
            assert(chosen.take(i + 1).drop_last() =~= chosen.take(i as int));
            assert(chosen.take(i + 1).last().0 == idx);
            push_skill_block(&mut v, &self.skills[idx]);
            i += 1;
        }
        assert(chosen.take(i as int) =~= chosen);
        extend_str(&mut v, SKILL_RULES);
        extend_str(&mut v, "</selected_skills>");
        string_of(v.as_slice())
    }


    fn name_width_exec(&self) -> (w: usize)
        ensures
            w as nat == name_width(skills_view(self.skills@)),
    {
        let ghost sv = skills_view(self.skills@);
        let mut m: usize = 0;
        let mut i: usize = 0;
        assert(sv.take(0) =~= Seq::<SkillView>::empty());
        while i < self.skills.len()
            invariant
                i <= self.skills@.len(),
                sv == skills_view(self.skills@),
                m as nat == longest_name(sv.take(i as int)),
            decreases self.skills@.len() - i,
        {
            assert(sv.take(i + 1).drop_last() =~= sv.take(i as int));
            let c = chars_of(self.skills[i].name.as_str());
            if c.len() > m {
                m = c.len();
            }
            i += 1;
        }
        assert(sv.take(i as int) =~= sv);
        if m < 28 { m } else { 28 }
    }

    /// The `/skills` listing.
    pub fn render_list(&self) -> (out: String)
        ensures
            out@ == render_list_spec(self@),
    {
        if self.skills.len() == 0 {
            let mut v = chars_of(NO_SKILLS);
            push_warnings(&mut v, &self.warnings);
            return string_of(v.as_slice());
        }
        let w = self.name_width_exec();
        let mut v = chars_of("discovered skills (");
        let d = decimal_string(self.skills.len() as u64);
        extend_chars(&mut v, d.as_slice());
        extend_str(&mut v, "):\n");
        let ghost head = v@;
        let ghost sv = skills_view(self.skills@);
        let ghost ov = overrides_view(self.overrides@);
        let mut i: usize = 0;
        assert(sv.take(0) =~= Seq::<SkillView>::empty());
        while i < self.skills.len()
            invariant
                i <= self.skills@.len(),
                sv == skills_view(self.skills@),
                ov == overrides_view(self.overrides@),
                v@ == head + list_lines(ov, sv.take(i as int), w as nat),
            decreases self.skills@.len() - i,
        {
            assert(sv.take(i + 1).drop_last() =~= sv.take(i as int));
            let sk = &self.skills[i];
            let on = self.effective_enabled(sk);
            push_list_line(&mut v, sk, on, w);
            assert(list_line(ov, sv[i as int], w as nat) == list_line_with(on, sv[i as int], w as nat));
            i += 1;
        }
        assert(sv.take(i as int) =~= sv);
        push_warnings(&mut v, &self.warnings);
        let t = trim_end_vec(v.as_slice());
        string_of(t.as_slice())
    }

    /// What `/skills show <name>` says.
    pub fn show(&self, name: &str) -> (out: String)
        ensures
            out@ == show_spec(self@, name@),
    {
        let n = trim_str(name);
        if n.len() == 0 {
            return String::from_str("usage: /skills show <name>");
        }
        let ns = string_of(n.as_slice());
        let k = match self.find(ns.as_str()) {
            Some(k) => k,
            None => {
                let mut v = chars_of("no skill named '");
                extend_chars(&mut v, n.as_slice());
                extend_str(&mut v, "'");
                return string_of(v.as_slice());
            },
        };
        let sk = &self.skills[k];
        let mut v = chars_of("skill: ");
        extend_str(&mut v, sk.name.as_str());
        extend_str(&mut v, "\nsource: ");
        extend_str(&mut v, sk.source.label());
        extend_str(&mut v, "\nstatus: ");
        extend_str(&mut v, if self.effective_enabled(sk) { "enabled" } else { "disabled" });
        extend_str(&mut v, "\npath: ");
        extend_str(&mut v, sk.path.as_str());
        extend_str(&mut v, "\nsize: ");
        let d = decimal_string(sk.bytes);
        extend_chars(&mut v, d.as_slice());
        extend_str(&mut v, " bytes\n");
        push_show_tail(&mut v, sk);
        assert(v@ =~= show_skill(self@, self@.skills[k as int]));
        string_of(v.as_slice())
    }

    fn set_enabled(&mut self, name: &str, on: bool) -> (out: String)
        ensures
            (out@, final(self)@.overrides) == set_enabled_spec(old(self)@, name@, on),
            final(self)@.skills == old(self)@.skills,
            final(self)@.warnings == old(self)@.warnings,
            final(self)@.state_path == old(self)@.state_path,
            final(self)@.unsaved == (old(self)@.unsaved || set_enabled_spec(old(self)@, name@, on).1 != old(self)@.overrides
                || (trim(name@).len() > 0 && find_key(old(self)@.skills, name_key(trim(name@))) >= 0)),
    {
        let n = trim_str(name);
        if n.len() == 0 {
            let mut v = chars_of("usage: /skills ");
            extend_str(&mut v, if on { "enable" } else { "disable" });
            extend_str(&mut v, " <name>");
            return string_of(v.as_slice());
        }
        let ns = string_of(n.as_slice());
        let k = match self.find(ns.as_str()) {
            Some(k) => k,
            None => {
                let mut v = chars_of("no skill named '");
                extend_chars(&mut v, n.as_slice());
                extend_str(&mut v, "'");
                return string_of(v.as_slice());
            },
        };
        let display = self.skills[k].name.clone();
        let key = name_key_exec(display.as_str());
        let ks = string_of(key.as_slice());
        self.set_override_exec(ks, on);
        self.unsaved = true;
        let mut v = chars_of("skill '");
        extend_str(&mut v, display.as_str());
        extend_str(&mut v, "' ");
        extend_str(&mut v, if on { "enabled" } else { "disabled" });
        string_of(v.as_slice())
    }

    fn set_override_exec(&mut self, key: String, on: bool)
        ensures
            overrides_view(final(self).overrides@) == set_override(overrides_view(old(self).overrides@), key@, on),
            final(self).skills@ == old(self).skills@,
            final(self).warnings@ == old(self).warnings@,
            final(self).state_path@ == old(self).state_path@,
            final(self).unsaved == old(self).unsaved,
    {
        let ghost ov = overrides_view(self.overrides@);
        let kc = chars_of(key.as_str());
        let mut i: usize = 0;
        while i < self.overrides.len()
            invariant
                i <= self.overrides@.len(),
                ov == overrides_view(self.overrides@),
                ov == overrides_view(old(self).overrides@),
                self.skills@ == old(self).skills@,
                self.warnings@ == old(self).warnings@,
                self.state_path@ == old(self).state_path@,
                self.unsaved == old(self).unsaved,
                kc@ == key@,
                forall|j: int| 0 <= j < i ==> (#[trigger] ov[j]).0 != key@,
            decreases self.overrides@.len() - i,
        {
            let c = chars_of(self.overrides[i].0.as_str());
            assert(ov[i as int] == (self.overrides@[i as int].0@, self.overrides@[i as int].1));
            if chars_eq(c.as_slice(), kc.as_slice()) {
                let _old = self.overrides.remove(i);
                self.overrides.insert(i, (key, on));
                proof {
                    lemma_set_override_at(ov, key@, on, i as int);
                }
                assert(overrides_view(self.overrides@) =~= ov.update(i as int, (key@, on)));
                return;
            }
            i += 1;
        }
        let ghost kv = key@;
        self.overrides.push((key, on));
        proof {
            lemma_set_override_new(ov, kv, on);
        }
        assert(overrides_view(self.overrides@) =~= ov.push((kv, on)));
    }

    /// What `/skills selected <message>` says.
    pub fn render_selected(&self, message: &str) -> (out: String)
        ensures
            out@ == render_selected_spec(self@, message@),
    {
        let m = trim_str(message);
        if m.len() == 0 {
            return String::from_str("usage: /skills selected <message>");
        }
        let ms = string_of(m.as_slice());
        let r = self.rank(ms.as_str());
        if r.len() == 0 {
            let mut v = chars_of("no skills match: ");
            extend_chars(&mut v, m.as_slice());
            return string_of(v.as_slice());
        }
        let mut v = chars_of("skills matching: ");
        extend_chars(&mut v, m.as_slice());
        extend_str(&mut v, "\n");
        let ghost head = v@;
        let ghost rv = ranked_view(r@);
        let mut i: usize = 0;
        assert(rv.take(0) =~= Seq::<(int, nat)>::empty());
        while i < r.len()
            invariant
                i <= r@.len(),
                rv == ranked_view(r@),
                forall|k: int| 0 <= k < r@.len() ==> (#[trigger] r@[k]).0 < self.skills@.len(),
                v@ == head + selected_lines(self@, rv.take(i as int)),
            decreases r@.len() - i,
        {
            assert(rv.take(i + 1).drop_last() =~= rv.take(i as int));
            assert(rv.take(i + 1).last() == rv[i as int]);
            let (idx, score) = r[i];
            push_selected_line(&mut v, &self.skills[idx], i, score);
            assert(selected_line(self@, i as int, rv[i as int]) == selected_line_with(skill_view(self.skills@[idx as int]), i as int, score as nat));
            i += 1;
        }
        assert(rv.take(i as int) =~= rv);
        let t = trim_end_vec(v.as_slice());
        string_of(t.as_slice())
    }

    /// What `/skills refresh` says once the skills were loaded again.
    pub fn reloaded_text(&self) -> (out: String)
        ensures
            out@ == "reloaded "@ + decimal(self@.skills.len()) + " skill(s) from disk\n"@ + render_list_spec(self@),
    {
        let mut v = chars_of("reloaded ");
        let d = decimal_string(self.skills.len() as u64);
        extend_chars(&mut v, d.as_slice());
        extend_str(&mut v, " skill(s) from disk\n");
        let l = self.render_list();
        extend_str(&mut v, l.as_str());
        string_of(v.as_slice())
    }

    /// Answer a `/skills` command; none for any other input. Enabling or
    /// disabling a skill changes the overrides (to be saved); the rest only
    /// read the store.
    pub fn command_output(&mut self, input: &str) -> (r: Option<SkillsReply>)
        ensures
            match skills_command(input@) {
                SkillsCommand::NotMine => r is None && final(self)@ == old(self)@,
                SkillsCommand::List => says(r, render_list_spec(old(self)@)) && final(self)@ == old(self)@,
                SkillsCommand::Refresh => r matches Some(SkillsReply::Reload) && final(self)@ == old(self)@,
                SkillsCommand::Show(n) => says(r, show_spec(old(self)@, n)) && final(self)@ == old(self)@,
                SkillsCommand::Enable(n) => says(r, set_enabled_spec(old(self)@, n, true).0)
                    && final(self)@.overrides == set_enabled_spec(old(self)@, n, true).1
                    && final(self)@.skills == old(self)@.skills,
                SkillsCommand::Disable(n) => says(r, set_enabled_spec(old(self)@, n, false).0)
                    && final(self)@.overrides == set_enabled_spec(old(self)@, n, false).1
                    && final(self)@.skills == old(self)@.skills,
                SkillsCommand::Selected(m) => says(r, render_selected_spec(old(self)@, m)) && final(self)@ == old(self)@,
                SkillsCommand::Unknown(a) => says(r, "unknown: /skills "@ + a + "\n"@ + SKILLS_USAGE@) && final(self)@ == old(self)@,
            },
    {
        let c = chars_of(input);
        if !starts_with_str(c.as_slice(), "/skills") {
            return None;
        }
        proof {
            reveal_strlit("/skills");
        }
        let rest0 = slice_chars(c.as_slice(), 7, c.len());
        assert(rest0@ =~= input@.skip(7));
        if rest0.len() > 0 && !is_whitespace(rest0[0]) {
            return None;
        }
        let rest = trim_chars(rest0.as_slice());
        if rest.len() == 0 || chars_eq_str(rest.as_slice(), "list") || chars_eq_str(rest.as_slice(), "help") {
            return Some(SkillsReply::Text(self.render_list()));
        }
        let (action, arg) = next_word(rest.as_slice());
        let a = action.as_slice();
        let args = string_of(arg.as_slice());
        if chars_eq_str(a, "refresh") || chars_eq_str(a, "reload") {
            Some(SkillsReply::Reload)
        } else if chars_eq_str(a, "show") || chars_eq_str(a, "info") {
            Some(SkillsReply::Text(self.show(args.as_str())))
        } else if chars_eq_str(a, "enable") {
            Some(SkillsReply::Text(self.set_enabled(args.as_str(), true)))
        } else if chars_eq_str(a, "disable") {
            Some(SkillsReply::Text(self.set_enabled(args.as_str(), false)))
        } else if chars_eq_str(a, "selected") || chars_eq_str(a, "select") || chars_eq_str(a, "match") {
            Some(SkillsReply::Text(self.render_selected(args.as_str())))
        } else {
            let mut v = chars_of("unknown: /skills ");
            extend_chars(&mut v, a);
            extend_str(&mut v, "\n");
            extend_str(&mut v, SKILLS_USAGE);
            Some(SkillsReply::Text(string_of(v.as_slice())))
        }
    }

    /// Whether a skill is on.
    fn effective_enabled(&self, s: &Skill) -> (b: bool)
        ensures
            b == enabled_spec(overrides_view(self.overrides@), skill_view(*s)),
    {
        let key = name_key_exec(s.name.as_str());
        let ghost ov = overrides_view(self.overrides@);
        let mut i: usize = 0;
        assert(ov.skip(0) =~= ov);
        while i < self.overrides.len()
            invariant
                i <= self.overrides@.len(),
                ov == overrides_view(self.overrides@),
                ov.len() == self.overrides@.len(),
                key@ == name_key(s.name@),
                override_of(ov, key@) == override_of(ov.skip(i as int), key@),
            decreases self.overrides@.len() - i,
        {
            assert(ov.skip(i as int)[0] == (self.overrides@[i as int].0@, self.overrides@[i as int].1));
            assert(ov.skip(i as int).drop_first() =~= ov.skip(i + 1));
            let k = chars_of(self.overrides[i].0.as_str());
            if chars_eq(k.as_slice(), key.as_slice()) {
                return self.overrides[i].1;
            }
            i += 1;
        }
        s.enabled_in_file
    }
}

} // verus!
