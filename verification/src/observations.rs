//! The observation system: what the agent is told after each action and on
//! request. Workspace snapshots are path-ordered maps from a file to its
//! state; comparing two gives the created, modified and deleted files. The
//! platform layer walks the file system and fetches pages; this module keeps
//! the baselines and writes the reports.
use vstd::prelude::*;
use crate::text::{
    chars_of, decimal, decimal_string, extend_chars, extend_str, join, join_parts, string_of,
    trim, trim_str, truncate_dots, truncate_with_dots, to_lowercase, unicode_lowercase, utf8_len,
    views, chars_eq_str, starts_with_str,
};
use crate::markdown::{lines, split_lines};

verus! {

broadcast use vstd::string::group_string_axioms;

/// What a snapshot records of one file.
#[derive(Clone, Copy, Debug, PartialEq, Eq, Structural)]
pub struct FileState {
    pub len: u64,
    pub modified_nanos: u128,
    pub hash: Option<u64>,
}

/// A snapshot stops growing at this many files (and is marked truncated).
pub const MAX_SNAPSHOT_FILES: usize = 2000;

/// Files longer than this are not hashed.
pub const MAX_HASH_BYTES: u64 = 1048576;

/// Directory and file names a snapshot never enters.
pub open spec fn skipped_name(name: Seq<char>) -> bool {
    name == ".git"@ || name == "target"@ || name == "node_modules"@ || name == ".next"@
        || name == "dist"@ || name == "build"@
}

/// Whether a snapshot leaves out the entry called `name` at the
/// workspace-relative path `rel`: build and tool folders, saved
/// conversations, the memory graph and the agent's change logs.
pub open spec fn skip_spec(name: Seq<char>, rel: Seq<char>) -> bool {
    skipped_name(name) || ".biscuits/conversations"@.is_prefix_of(rel) || rel == ".biscuits/memory_graph.json"@
        || crate::memory::log_path_spec(rel)
}

/// Whether a directory walk passes over a folder or file of this name.
pub fn skipped_dir_name(name: &str) -> (b: bool)
    ensures
        b == skipped_name(name@),
{
    let n = chars_of(name);
    let x = n.as_slice();
    chars_eq_str(x, ".git") || chars_eq_str(x, "target") || chars_eq_str(x, "node_modules")
        || chars_eq_str(x, ".next") || chars_eq_str(x, "dist") || chars_eq_str(x, "build")
}

/// Whether a snapshot leaves out an entry.
pub fn skip_entry(name: &str, rel: &str) -> (b: bool)
    ensures
        b == skip_spec(name@, rel@),
{
    let n = chars_of(name);
    let x = n.as_slice();
    if chars_eq_str(x, ".git") || chars_eq_str(x, "target") || chars_eq_str(x, "node_modules")
        || chars_eq_str(x, ".next") || chars_eq_str(x, "dist") || chars_eq_str(x, "build") {
        return true;
    }
    let r = chars_of(rel);
    starts_with_str(r.as_slice(), ".biscuits/conversations") || chars_eq_str(r.as_slice(), ".biscuits/memory_graph.json")
        || crate::memory::is_biscuit_log_path(rel)
}

/// What a snapshot records of a file: its length and modification time, and
/// a hash of its contents when they are at hand and the file is no longer
/// than [`MAX_HASH_BYTES`].
pub fn file_state(len: u64, modified_nanos: u128, bytes: Option<&[u8]>) -> (f: FileState)
    ensures
        f.len == len,
        f.modified_nanos == modified_nanos,
        f.hash is Some <==> (len <= MAX_HASH_BYTES && bytes is Some),
{
    let hash = if len > MAX_HASH_BYTES {
        None
    } else {
        match bytes {
            Some(b) => Some(crate::memory::bytes_hash(b)),
            None => None,
        }
    };
    FileState { len, modified_nanos, hash }
}

/// A file looks binary when a zero byte occurs among its first 512 bytes.
pub open spec fn binary_spec(bytes: Seq<u8>) -> bool {
    exists|i: int| 0 <= i < bytes.len() && i < 512 && bytes[i] == 0
}

/// Whether a file's contents look binary.
pub fn looks_binary(bytes: &[u8]) -> (b: bool)
    ensures
        b == binary_spec(bytes@),
{
    let n: usize = if bytes.len() < 512 { bytes.len() } else { 512 };
    let mut i: usize = 0;
    while i < n
        invariant
            i <= n,
            n <= bytes@.len(),
            n <= 512,
            n == bytes@.len() || n == 512,
            forall|j: int| 0 <= j < i ==> bytes@[j] != 0,
        decreases n - i,
    {
        if bytes[i] == 0 {
            assert(bytes@[i as int] == 0);
            return true;
        }
        i += 1;
    }
    false
}

/// What observing a file shows: its path, size and modification time (in
/// seconds, or `unknown`), and its text cut to `max` characters, or a note
/// in place of a binary file's contents. `text` is the file's bytes decoded
/// with invalid sequences replaced.
pub open spec fn file_observation_spec(rel: Seq<char>, len: u64, modified: Option<u64>, bytes: Seq<u8>, text: Seq<char>, max: nat) -> Seq<char> {
    "file: "@ + rel + "\nbytes: "@ + decimal(len as nat) + "\nmodified_unix: "@
        + (match modified { Some(t) => decimal(t as nat), None => "unknown"@ }) + "\ncontent:\n"@
        + (if binary_spec(bytes) { "(binary file; content omitted)"@ } else { truncate_dots(text, max) })
}

/// Observe one file.
pub fn file_observation(rel: &str, len: u64, modified: Option<u64>, bytes: &[u8], text: &str, max: usize) -> (out: String)
    ensures
        out@ == file_observation_spec(rel@, len, modified, bytes@, text@, max as nat),
{
    let mut v = chars_of("file: ");
    extend_str(&mut v, rel);
    extend_str(&mut v, "\nbytes: ");
    let d = decimal_string(len);
    extend_chars(&mut v, d.as_slice());
    extend_str(&mut v, "\nmodified_unix: ");
    match modified {
        Some(t) => {
            let m = decimal_string(t);
            extend_chars(&mut v, m.as_slice());
        },
        None => extend_str(&mut v, "unknown"),
    }
    extend_str(&mut v, "\ncontent:\n");
    if looks_binary(bytes) {
        extend_str(&mut v, "(binary file; content omitted)");
    } else {
        let t = chars_of(text);
        let cut = truncate_with_dots(t.as_slice(), max);
        extend_chars(&mut v, cut.as_slice());
    }
    string_of(v.as_slice())
}

// ---------------------------------------------------------------------------
// Path order
// ---------------------------------------------------------------------------

/// `a` sorts before `b`: character by character by code point, a proper
/// prefix first (the order of `str`, since UTF-8 keeps code point order).
pub open spec fn path_lt(a: Seq<char>, b: Seq<char>) -> bool
    decreases a.len(),
{
    if a.len() == 0 {
        b.len() > 0
    } else if b.len() == 0 {
        false
    } else if a[0] != b[0] {
        a[0] < b[0]
    } else {
        path_lt(a.drop_first(), b.drop_first())
    }
}

pub proof fn lemma_path_lt_irreflexive(a: Seq<char>)
    ensures
        !path_lt(a, a),
    decreases a.len(),
{
    if a.len() > 0 {
        lemma_path_lt_irreflexive(a.drop_first());
    }
}

pub proof fn lemma_path_lt_transitive(a: Seq<char>, b: Seq<char>, c: Seq<char>)
    requires
        path_lt(a, b),
        path_lt(b, c),
    ensures
        path_lt(a, c),
    decreases a.len(),
{
    if a.len() > 0 && b.len() > 0 && c.len() > 0 && a[0] == b[0] && b[0] == c[0] {
        lemma_path_lt_transitive(a.drop_first(), b.drop_first(), c.drop_first());
    }
}

pub proof fn lemma_path_lt_total(a: Seq<char>, b: Seq<char>)
    ensures
        a == b || path_lt(a, b) || path_lt(b, a),
    decreases a.len(),
{
    if a.len() == 0 && b.len() == 0 {
        assert(a =~= b);
    } else if a.len() == 0 || b.len() == 0 {
    } else if a[0] != b[0] {
    } else {
        lemma_path_lt_total(a.drop_first(), b.drop_first());
        if a.drop_first() == b.drop_first() {
            assert(a =~= seq![a[0]] + a.drop_first());
            assert(b =~= seq![b[0]] + b.drop_first());
        }
    }
}

/// Whether `a` sorts before `b`.
pub fn path_less(a: &[char], b: &[char]) -> (r: bool)
    ensures
        r == path_lt(a@, b@),
{
    let mut i: usize = 0;
    assert(a@.skip(0) =~= a@);
    assert(b@.skip(0) =~= b@);
    while i < a.len() && i < b.len() && a[i] == b[i]
        invariant
            i <= a@.len(),
            i <= b@.len(),
            path_lt(a@, b@) == path_lt(a@.skip(i as int), b@.skip(i as int)),
        decreases a@.len() - i,
    {
        assert(a@.skip(i as int).drop_first() =~= a@.skip(i + 1));
        assert(b@.skip(i as int).drop_first() =~= b@.skip(i + 1));
        i += 1;
    }
    if i == a.len() {
        i < b.len()
    } else if i == b.len() {
        false
    } else {
        a[i] < b[i]
    }
}

/// Keys in strictly increasing path order.
pub open spec fn sorted_keys(k: Seq<Seq<char>>) -> bool {
    forall|i: int, j: int| 0 <= i < j < k.len() ==> path_lt(#[trigger] k[i], #[trigger] k[j])
}

pub open spec fn keys_of<V>(files: Seq<(String, V)>) -> Seq<Seq<char>> {
    files.map_values(|e: (String, V)| e.0@)
}

/// The files as a map from path to state.
pub open spec fn files_map<V>(files: Seq<(String, V)>) -> Map<Seq<char>, V>
    decreases files.len(),
{
    if files.len() == 0 {
        Map::empty()
    } else {
        files_map(files.drop_last()).insert(files.last().0@, files.last().1)
    }
}

// ---------------------------------------------------------------------------
// Snapshots
// ---------------------------------------------------------------------------

/// The files of a workspace (path relative to the workspace, forward
/// slashes) and whether the walk stopped at its cap.
pub struct WorkspaceSnapshot {
    files: Vec<(String, FileState)>,
    truncated: bool,
}

impl WorkspaceSnapshot {
    #[verifier::type_invariant]
    spec fn wf(&self) -> bool {
        sorted_keys(keys_of(self.files@))
    }

    /// The snapshot as a map from path to file state.
    pub closed spec fn map(&self) -> Map<Seq<char>, FileState> {
        files_map(self.files@)
    }

    /// The paths in order.
    pub closed spec fn paths(&self) -> Seq<Seq<char>> {
        keys_of(self.files@)
    }

    pub closed spec fn is_truncated(&self) -> bool {
        self.truncated
    }

    pub fn new() -> (s: WorkspaceSnapshot)
        ensures
            s.map() == Map::<Seq<char>, FileState>::empty(),
            s.paths().len() == 0,
            !s.is_truncated(),
    {
        WorkspaceSnapshot { files: Vec::new(), truncated: false }
    }

    /// Number of files recorded.
    pub fn len(&self) -> (n: usize)
        ensures
            n == self.paths().len(),
    {
        self.files.len()
    }

    /// Record that the walk stopped early.
    pub fn mark_truncated(&mut self)
        ensures
            final(self).is_truncated(),
            final(self).map() == old(self).map(),
            final(self).paths() == old(self).paths(),
    {
        proof {
            use_type_invariant(&*self);
        }
        self.truncated = true;
    }

    /// Record the state of `path`, replacing an earlier record of it.
    pub fn insert(&mut self, path: String, state: FileState)
        ensures
            final(self).map() == old(self).map().insert(path@, state),
            final(self).paths().to_set() == old(self).paths().to_set().insert(path@),
            final(self).is_truncated() == old(self).is_truncated(),
    {
        proof {
            use_type_invariant(&*self);
        }
        let mut files = Vec::new();
        std::mem::swap(&mut files, &mut self.files);
        insert_sorted(&mut files, path, state);
        self.files = files;
    }
}

/// Put `(path, state)` into a path-ordered list, in place of an earlier
/// entry for `path` if there is one.
pub fn insert_sorted<V>(files: &mut Vec<(String, V)>, path: String, state: V)
    requires
        sorted_keys(keys_of(old(files)@)),
    ensures
        sorted_keys(keys_of(final(files)@)),
        files_map(final(files)@) == files_map(old(files)@).insert(path@, state),
        keys_of(final(files)@).to_set() == keys_of(old(files)@).to_set().insert(path@),
{
    let p = chars_of(path.as_str());
    let mut i: usize = 0;
    let ghost keys = keys_of(files@);
    let mut done = false;
    while i < files.len() && !done
        invariant
            i <= files@.len(),
            keys == keys_of(files@),
            sorted_keys(keys),
            p@ == path@,
            forall|j: int| 0 <= j < i ==> path_lt(#[trigger] keys[j], p@),
            done ==> i < files@.len() && !path_lt(keys[i as int], p@),
        decreases files@.len() - i + (if done { 0int } else { 1int }),
    {
        let k = chars_of(files[i].0.as_str());
        assert(keys[i as int] == files@[i as int].0@);
        if !path_less(k.as_slice(), p.as_slice()) {
            done = true;
        } else {
            i += 1;
        }
    }
    let ghost old_files = files@;
    let same = if i < files.len() {
        let k = chars_of(files[i].0.as_str());
        crate::text::chars_eq(k.as_slice(), p.as_slice())
    } else {
        false
    };
    proof {
        lemma_insert_position(old_files, path@, i as int, same);
    }
    if same {
        files.set(i, (path, state));
    } else {
        files.insert(i, (path, state));
    }
    proof {
        lemma_insert_result(old_files, files@, path@, state, i as int, same);
    }
}

/// The position of `path` in a path-ordered list, if it is there.
pub fn find_path<V>(files: &Vec<(String, V)>, path: &[char]) -> (r: Option<usize>)
    requires
        sorted_keys(keys_of(files@)),
    ensures
        match r {
            Some(i) => i < files@.len() && files@[i as int].0@ == path@ && files_map(files@).dom().contains(path@)
                && files_map(files@)[path@] == files@[i as int].1,
            None => !files_map(files@).dom().contains(path@),
        },
{
    let ghost keys = keys_of(files@);
    let mut i: usize = 0;
    while i < files.len()
        invariant
            i <= files@.len(),
            keys == keys_of(files@),
            sorted_keys(keys),
            forall|j: int| 0 <= j < i ==> (#[trigger] keys[j]) != path@,
        decreases files@.len() - i,
    {
        let k = chars_of(files[i].0.as_str());
        assert(keys[i as int] == files@[i as int].0@);
        if crate::text::chars_eq(k.as_slice(), path) {
            proof {
                lemma_files_map_entry(files@, i as int);
            }
            return Some(i);
        }
        i += 1;
    }
    proof {
        lemma_files_map_contains(files@, path@);
        if keys.contains(path@) {
            let j = choose|j: int| 0 <= j < keys.len() && keys[j] == path@;
            assert(keys[j] != path@);
        }
    }
    None
}

pub proof fn lemma_files_map_contains<V>(files: Seq<(String, V)>, k: Seq<char>)
    ensures
        files_map(files).dom().contains(k) <==> keys_of(files).contains(k),
    decreases files.len(),
{
    if files.len() > 0 {
        lemma_files_map_contains(files.drop_last(), k);
        assert(keys_of(files.drop_last()) =~= keys_of(files).drop_last());
        if keys_of(files).contains(k) && k != files.last().0@ {
            let j = choose|j: int| 0 <= j < keys_of(files).len() && keys_of(files)[j] == k;
            assert(j < files.len() - 1);
            assert(keys_of(files.drop_last())[j] == k);
        }
        assert(keys_of(files)[files.len() - 1] == files.last().0@);
    }
}

/// With distinct keys, the map gives each key its entry's state.
pub proof fn lemma_files_map_entry<V>(files: Seq<(String, V)>, i: int)
    requires
        0 <= i < files.len(),
        sorted_keys(keys_of(files)),
    ensures
        files_map(files).dom().contains(files[i].0@),
        files_map(files)[files[i].0@] == files[i].1,
    decreases files.len(),
{
    let d = files.drop_last();
    assert(keys_of(d) =~= keys_of(files).drop_last());
    if i < files.len() - 1 {
        lemma_files_map_entry(d, i);
        assert(path_lt(keys_of(files)[i], keys_of(files)[files.len() - 1]));
        lemma_path_lt_irreflexive(files[i].0@);
    }
}

proof fn lemma_insert_position<V>(files: Seq<(String, V)>, p: Seq<char>, i: int, same: bool)
    requires
        0 <= i <= files.len(),
        sorted_keys(keys_of(files)),
        forall|j: int| 0 <= j < i ==> path_lt(#[trigger] keys_of(files)[j], p),
        i < files.len() ==> !path_lt(keys_of(files)[i], p),
        same == (i < files.len() && keys_of(files)[i] == p),
    ensures
        !same ==> forall|j: int| i <= j < files.len() ==> path_lt(p, #[trigger] keys_of(files)[j]),
{
    if !same {
        assert forall|j: int| i <= j < files.len() implies path_lt(p, #[trigger] keys_of(files)[j]) by {
            lemma_path_lt_total(keys_of(files)[i], p);
            if j > i {
                lemma_path_lt_transitive(p, keys_of(files)[i], keys_of(files)[j]);
            }
        }
    }
}

proof fn lemma_insert_result<V>(
    old_files: Seq<(String, V)>,
    files: Seq<(String, V)>,
    p: Seq<char>,
    state: V,
    i: int,
    same: bool,
)
    requires
        0 <= i <= old_files.len(),
        sorted_keys(keys_of(old_files)),
        forall|j: int| 0 <= j < i ==> path_lt(#[trigger] keys_of(old_files)[j], p),
        same ==> i < old_files.len() && keys_of(old_files)[i] == p,
        !same ==> forall|j: int| i <= j < old_files.len() ==> path_lt(p, #[trigger] keys_of(old_files)[j]),
        same ==> files.len() == old_files.len() && files[i].0@ == p && files[i].1 == state
            && forall|j: int| 0 <= j < files.len() && j != i ==> files[j] == old_files[j],
        !same ==> files == old_files.insert(i, files[i]) && files[i].0@ == p && files[i].1 == state,
    ensures
        sorted_keys(keys_of(files)),
        files_map(files) == files_map(old_files).insert(p, state),
        keys_of(files).to_set() == keys_of(old_files).to_set().insert(p),
{
    let ko = keys_of(old_files);
    let kn = keys_of(files);
    if same {
        assert(kn =~= ko);
    } else {
        assert(kn =~= ko.insert(i, p));
        assert forall|a: int, b: int| 0 <= a < b < kn.len() implies path_lt(#[trigger] kn[a], #[trigger] kn[b]) by {
            if b < i {
            } else if a < i && b == i {
            } else if a < i && b > i {
                assert(kn[b] == ko[b - 1]);
                lemma_path_lt_transitive(ko[a], p, ko[b - 1]);
            } else if a == i {
                assert(kn[b] == ko[b - 1]);
            } else {
                assert(kn[a] == ko[a - 1]);
                assert(kn[b] == ko[b - 1]);
            }
        }
    }
    assert forall|x: Seq<char>| #[trigger] kn.contains(x) <==> (ko.contains(x) || x == p) by {
        if kn.contains(x) {
            let j = choose|j: int| 0 <= j < kn.len() && kn[j] == x;
            if x != p {
                if same {
                    assert(ko[j] == x);
                } else if j < i {
                    assert(ko[j] == x);
                } else {
                    assert(j != i);
                    assert(ko[j - 1] == x);
                }
            }
        }
        if ko.contains(x) {
            let j = choose|j: int| 0 <= j < ko.len() && ko[j] == x;
            if same {
                assert(kn[j] == x);
            } else if j < i {
                assert(kn[j] == x);
            } else {
                assert(kn[j + 1] == x);
            }
        }
        if x == p {
            assert(kn[i] == p);
        }
    }
    assert(kn.to_set() =~= ko.to_set().insert(p));
    let m = files_map(old_files).insert(p, state);
    assert forall|x: Seq<char>| #[trigger] files_map(files).dom().contains(x) <==> m.dom().contains(x) by {
        lemma_files_map_contains(files, x);
        lemma_files_map_contains(old_files, x);
        assert(kn.contains(x) <==> (ko.contains(x) || x == p));
    }
    assert forall|x: Seq<char>| #[trigger] files_map(files).dom().contains(x) implies files_map(files)[x] == m[x] by {
        lemma_files_map_contains(files, x);
        let j = choose|j: int| 0 <= j < kn.len() && kn[j] == x;
        lemma_files_map_entry(files, j);
        if x == p {
            if j != i {
                if j < i {
                    assert(path_lt(kn[j], kn[i]));
                } else {
                    assert(path_lt(kn[i], kn[j]));
                }
                lemma_path_lt_irreflexive(p);
            }
        } else {
            if same {
                assert(j != i);
                lemma_files_map_entry(old_files, j);
            } else if j < i {
                lemma_files_map_entry(old_files, j);
            } else {
                assert(j != i);
                lemma_files_map_entry(old_files, j - 1);
            }
        }
    }
    assert(files_map(files) =~= m);
}

// ---------------------------------------------------------------------------
// Comparing snapshots
// ---------------------------------------------------------------------------

/// Paths of `keys` absent from `before`.
pub open spec fn created_paths<V>(keys: Seq<Seq<char>>, before: Map<Seq<char>, V>) -> Seq<Seq<char>>
    decreases keys.len(),
{
    if keys.len() == 0 {
        Seq::empty()
    } else {
        created_paths(keys.drop_last(), before) + if !before.dom().contains(keys.last()) {
            seq![keys.last()]
        } else {
            Seq::empty()
        }
    }
}

/// Paths of `keys` recorded in both maps with different states.
pub open spec fn modified_paths<V>(keys: Seq<Seq<char>>, before: Map<Seq<char>, V>, after: Map<Seq<char>, V>) -> Seq<Seq<char>>
    decreases keys.len(),
{
    if keys.len() == 0 {
        Seq::empty()
    } else {
        let k = keys.last();
        modified_paths(keys.drop_last(), before, after) + if before.dom().contains(k) && before[k] != after[k] {
            seq![k]
        } else {
            Seq::empty()
        }
    }
}

/// Files created, modified and deleted between two snapshots, each list in
/// path order.
pub struct WorkspaceDiff {
    pub created: Vec<String>,
    pub modified: Vec<String>,
    pub deleted: Vec<String>,
    pub truncated: bool,
}

pub open spec fn strings_view(v: Seq<String>) -> Seq<Seq<char>> {
    v.map_values(|s: String| s@)
}

/// What comparing `before` with `after` reports.
pub open spec fn diff_matches(d: WorkspaceDiff, before: WorkspaceSnapshot, after: WorkspaceSnapshot) -> bool {
    &&& strings_view(d.created@) == created_paths(after.paths(), before.map())
    &&& strings_view(d.modified@) == modified_paths(after.paths(), before.map(), after.map())
    &&& strings_view(d.deleted@) == created_paths(before.paths(), after.map())
    &&& d.truncated == (before.is_truncated() || after.is_truncated())
}

impl WorkspaceSnapshot {
    /// The recorded state of `path`, if any.
    pub fn get(&self, path: &[char]) -> (r: Option<FileState>)
        ensures
            match r {
                Some(st) => self.map().dom().contains(path@) && self.map()[path@] == st,
                None => !self.map().dom().contains(path@),
            },
    {
        proof {
            use_type_invariant(self);
        }
        match find_path(&self.files, path) {
            Some(i) => Some(self.files[i].1),
            None => None,
        }
    }

    /// Compare with a later snapshot.
    pub fn diff(&self, after: &WorkspaceSnapshot) -> (d: WorkspaceDiff)
        ensures
            diff_matches(d, *self, *after),
    {
        proof {
            use_type_invariant(self);
            use_type_invariant(after);
        }
        let mut created: Vec<String> = Vec::new();
        let mut modified: Vec<String> = Vec::new();
        let ghost ak = keys_of(after.files@);
        let mut i: usize = 0;
        while i < after.files.len()
            invariant
                i <= after.files@.len(),
                ak == keys_of(after.files@),
                sorted_keys(ak),
                strings_view(created@) == created_paths(ak.take(i as int), self.map()),
                strings_view(modified@) == modified_paths(ak.take(i as int), self.map(), after.map()),
            decreases after.files@.len() - i,
        {
            assert(ak.take(i + 1).drop_last() =~= ak.take(i as int));
            assert(ak[i as int] == after.files@[i as int].0@);
            let k = chars_of(after.files[i].0.as_str());
            let now = after.files[i].1;
            proof {
                lemma_files_map_entry(after.files@, i as int);
            }
            let ghost c0 = strings_view(created@);
            let ghost m0 = strings_view(modified@);
            match self.get(k.as_slice()) {
                None => {
                    created.push(after.files[i].0.clone());
                    assert(strings_view(created@) =~= c0 + seq![k@]);
                    assert(strings_view(modified@) =~= m0 + Seq::<Seq<char>>::empty());
                },
                Some(was) => {
                    if was != now {
                        modified.push(after.files[i].0.clone());
                        assert(strings_view(modified@) =~= m0 + seq![k@]);
                    } else {
                        assert(strings_view(modified@) =~= m0 + Seq::<Seq<char>>::empty());
                    }
                    assert(strings_view(created@) =~= c0 + Seq::<Seq<char>>::empty());
                },
            }
            i += 1;
        }
        assert(ak.take(i as int) =~= ak);
        let mut deleted: Vec<String> = Vec::new();
        let ghost bk = keys_of(self.files@);
        let mut j: usize = 0;
        while j < self.files.len()
            invariant
                j <= self.files@.len(),
                bk == keys_of(self.files@),
                strings_view(deleted@) == created_paths(bk.take(j as int), after.map()),
            decreases self.files@.len() - j,
        {
            assert(bk.take(j + 1).drop_last() =~= bk.take(j as int));
            assert(bk[j as int] == self.files@[j as int].0@);
            let k = chars_of(self.files[j].0.as_str());
            let ghost d0 = strings_view(deleted@);
            match after.get(k.as_slice()) {
                None => {
                    deleted.push(self.files[j].0.clone());
                    assert(strings_view(deleted@) =~= d0 + seq![k@]);
                },
                Some(_) => {
                    assert(strings_view(deleted@) =~= d0 + Seq::<Seq<char>>::empty());
                },
            }
            j += 1;
        }
        assert(bk.take(j as int) =~= bk);
        WorkspaceDiff { created, modified, deleted, truncated: self.truncated || after.truncated }
    }
}

pub proof fn lemma_created_of_own_keys<V>(keys: Seq<Seq<char>>, m: Map<Seq<char>, V>)
    requires
        forall|j: int| 0 <= j < keys.len() ==> m.dom().contains(#[trigger] keys[j]),
    ensures
        created_paths(keys, m).len() == 0,
    decreases keys.len(),
{
    if keys.len() > 0 {
        lemma_created_of_own_keys(keys.drop_last(), m);
    }
}

pub proof fn lemma_modified_same_map<V>(keys: Seq<Seq<char>>, m: Map<Seq<char>, V>)
    ensures
        modified_paths(keys, m, m).len() == 0,
    decreases keys.len(),
{
    if keys.len() > 0 {
        lemma_modified_same_map(keys.drop_last(), m);
    }
}

pub proof fn lemma_keys_in_map<V>(files: Seq<(String, V)>)
    ensures
        forall|j: int| 0 <= j < keys_of(files).len() ==> files_map(files).dom().contains(#[trigger] keys_of(files)[j]),
{
    assert forall|j: int| 0 <= j < keys_of(files).len() implies files_map(files).dom().contains(#[trigger] keys_of(files)[j]) by {
        lemma_files_map_contains(files, keys_of(files)[j]);
        assert(keys_of(files).contains(keys_of(files)[j]));
    }
}

/// Comparing a snapshot with itself finds no created, modified or deleted
/// file: once a baseline has been taken, an unchanged workspace reports
/// nothing.
pub proof fn law_snapshot_has_no_changes_against_itself(s: WorkspaceSnapshot)
    ensures
        created_paths(s.paths(), s.map()).len() == 0,
        modified_paths(s.paths(), s.map(), s.map()).len() == 0,
{
    lemma_keys_in_map(s.files@);
    lemma_created_of_own_keys(s.paths(), s.map());
    lemma_modified_same_map(s.paths(), s.map());
}

// ---------------------------------------------------------------------------
// Reports
// ---------------------------------------------------------------------------

/// At most twenty `- label: path` lines, then a count of the rest.
pub open spec fn limited_lines(label: Seq<char>, paths: Seq<Seq<char>>) -> Seq<Seq<char>> {
    let shown = if paths.len() <= 20 { paths } else { paths.take(20) };
    shown.map_values(|p: Seq<char>| "- "@ + label + ": "@ + p) + if paths.len() > 20 {
        seq!["- "@ + label + ": ... and "@ + decimal((paths.len() - 20) as nat) + " more"@]
    } else {
        Seq::empty()
    }
}

fn push_limited(out: &mut Vec<Vec<char>>, label: &str, paths: &Vec<String>)
    ensures
        views(final(out)@) == views(old(out)@) + limited_lines(label@, strings_view(paths@)),
{
    let ghost ps = strings_view(paths@);
    let ghost base = views(out@);
    let n: usize = if paths.len() <= 20 { paths.len() } else { 20 };
    let ghost shown = if ps.len() <= 20 { ps } else { ps.take(20) };
    let mut i: usize = 0;
    while i < n
        invariant
            i <= n,
            n == shown.len(),
            n <= paths@.len(),
            ps == strings_view(paths@),
            shown == (if ps.len() <= 20 { ps } else { ps.take(20) }),
            views(out@) == base + shown.take(i as int).map_values(|p: Seq<char>| "- "@ + label@ + ": "@ + p),
        decreases n - i,
    {
        let mut line = chars_of("- ");
        extend_str(&mut line, label);
        extend_str(&mut line, ": ");
        extend_str(&mut line, paths[i].as_str());
        assert(shown[i as int] == paths@[i as int]@);
        let ghost before = views(out@);
        let ghost lv = line@;
        out.push(line);
        assert(views(out@) =~= before.push(lv));
        assert(views(out@) =~= base + shown.take(i + 1).map_values(|p: Seq<char>| "- "@ + label@ + ": "@ + p));
        i += 1;
    }
    assert(shown.take(n as int) =~= shown);
    let ghost mid = views(out@);
    if paths.len() > 20 {
        let mut line = chars_of("- ");
        extend_str(&mut line, label);
        extend_str(&mut line, ": ... and ");
        let d = decimal_string((paths.len() - 20) as u64);
        extend_chars(&mut line, d.as_slice());
        extend_str(&mut line, " more");
        let ghost lv = line@;
        out.push(line);
        assert(views(out@) =~= mid.push(lv));
    } else {
        assert(views(out@) =~= mid + Seq::<Seq<char>>::empty());
    }
}

/// The workspace-changes report.
pub open spec fn diff_report(created: Seq<Seq<char>>, modified: Seq<Seq<char>>, deleted: Seq<Seq<char>>, truncated: bool) -> Seq<char> {
    if created.len() == 0 && modified.len() == 0 && deleted.len() == 0 {
        if truncated { "none detected (snapshot truncated)"@ } else { "none detected"@ }
    } else {
        join(limited_lines("created"@, created) + limited_lines("modified"@, modified) + limited_lines("deleted"@, deleted)
            + if truncated { seq!["(snapshot truncated)"@] } else { Seq::empty() }, seq!['\n'])
    }
}

/// Render what changed.
pub fn render_workspace_diff(diff: &WorkspaceDiff) -> (out: String)
    ensures
        out@ == diff_report(strings_view(diff.created@), strings_view(diff.modified@), strings_view(diff.deleted@), diff.truncated),
{
    if diff.created.len() == 0 && diff.modified.len() == 0 && diff.deleted.len() == 0 {
        if diff.truncated {
            return String::from_str("none detected (snapshot truncated)");
        } else {
            return String::from_str("none detected");
        }
    }
    let mut ls: Vec<Vec<char>> = Vec::new();
    push_limited(&mut ls, "created", &diff.created);
    push_limited(&mut ls, "modified", &diff.modified);
    push_limited(&mut ls, "deleted", &diff.deleted);
    let ghost mid = views(ls@);
    if diff.truncated {
        ls.push(chars_of("(snapshot truncated)"));
        assert(views(ls@) =~= mid + seq!["(snapshot truncated)"@]);
    } else {
        assert(views(ls@) =~= mid + Seq::<Seq<char>>::empty());
    }
    let j = join_parts(&ls, "\n");
    proof {
        reveal_strlit("\n");
        assert("\n"@ =~= seq!['\n']);
    }
    string_of(j.as_slice())
}

/// The file listing of a snapshot: the count (and a truncation note), then
/// the first forty paths in order.
pub open spec fn summary_spec(paths: Seq<Seq<char>>, truncated: bool) -> Seq<char> {
    let shown = if paths.len() <= 40 { paths } else { paths.take(40) };
    let listed = join(shown.map_values(|p: Seq<char>| "- "@ + p), seq!['\n']);
    let suffix = if truncated { "\n(snapshot truncated)"@ } else { Seq::empty() };
    if listed.len() == 0 {
        "files: 0"@ + suffix
    } else {
        "files: "@ + decimal(paths.len()) + suffix + "\n"@ + listed
    }
}

impl WorkspaceSnapshot {
    /// The file listing of the snapshot.
    pub fn render_summary(&self) -> (out: String)
        ensures
            out@ == summary_spec(self.paths(), self.is_truncated()),
    {
        let ghost ks = keys_of(self.files@);
        let n: usize = if self.files.len() <= 40 { self.files.len() } else { 40 };
        let ghost shown = if ks.len() <= 40 { ks } else { ks.take(40) };
        let mut parts: Vec<Vec<char>> = Vec::new();
        let mut i: usize = 0;
        while i < n
            invariant
                i <= n,
                n == shown.len(),
                n <= self.files@.len(),
                ks == keys_of(self.files@),
                shown == (if ks.len() <= 40 { ks } else { ks.take(40) }),
                views(parts@) == shown.take(i as int).map_values(|p: Seq<char>| "- "@ + p),
            decreases n - i,
        {
            let mut line = chars_of("- ");
            extend_str(&mut line, self.files[i].0.as_str());
            assert(shown[i as int] == self.files@[i as int].0@);
            let ghost before = views(parts@);
            let ghost lv = line@;
            parts.push(line);
            assert(views(parts@) =~= before.push(lv));
            assert(views(parts@) =~= shown.take(i + 1).map_values(|p: Seq<char>| "- "@ + p));
            i += 1;
        }
        assert(shown.take(n as int) =~= shown);
        let listed = join_parts(&parts, "\n");
        proof {
            reveal_strlit("\n");
            assert("\n"@ =~= seq!['\n']);
        }
        assert(listed@ == join(shown.map_values(|p: Seq<char>| "- "@ + p), seq!['\n']));
        let ghost suffix: Seq<char> = if self.truncated { "\n(snapshot truncated)"@ } else { Seq::empty() };
        let mut v = chars_of("files: ");
        if listed.len() == 0 {
            extend_str(&mut v, "0");
            let ghost m = v@;
            if self.truncated {
                extend_str(&mut v, "\n(snapshot truncated)");
            } else {
                assert(v@ =~= m + Seq::<char>::empty());
            }
            proof {
                reveal_strlit("files: ");
                reveal_strlit("0");
                reveal_strlit("files: 0");
            }
            assert("files: "@ + "0"@ =~= "files: 0"@);
            assert(v@ =~= "files: 0"@ + suffix);
        } else {
            let d = decimal_string(self.files.len() as u64);
            extend_chars(&mut v, d.as_slice());
            let ghost m = v@;
            if self.truncated {
                extend_str(&mut v, "\n(snapshot truncated)");
            } else {
                assert(v@ =~= m + Seq::<char>::empty());
            }
            extend_str(&mut v, "\n");
            extend_chars(&mut v, listed.as_slice());
            assert(ks.len() == self.files@.len());
            assert(v@ =~= "files: "@ + decimal(ks.len()) + suffix + "\n"@ + listed@);
        }
        string_of(v.as_slice())
    }
}

// ---------------------------------------------------------------------------
// The observation system
// ---------------------------------------------------------------------------

/// The last fetch of a page: its length in bytes and a hash of its text.
#[derive(Clone, Copy, Debug, PartialEq, Eq, Structural)]
pub struct WebState {
    pub len: usize,
    pub hash: u64,
}

/// `std::hash::DefaultHasher` over the bytes of `text`. Its value is not
/// stable across Rust releases, so nothing is claimed of it: it is only
/// compared with an earlier hash in the same run.
#[verifier::external_body]
pub(crate) fn text_hash(text: &str) -> u64 {
    let mut hasher = std::collections::hash_map::DefaultHasher::new();
    std::hash::Hash::hash(text.as_bytes(), &mut hasher);
    std::hash::Hasher::finish(&hasher)
}

/// The page record for `url`, if any (the first entry naming it).
pub open spec fn page_lookup(pages: Seq<(String, WebState)>, url: Seq<char>) -> Option<WebState>
    decreases pages.len(),
{
    if pages.len() == 0 {
        None
    } else if pages[0].0@ == url {
        Some(pages[0].1)
    } else {
        page_lookup(pages.drop_first(), url)
    }
}

pub const SYSTEM_PROMPT: &'static str = "<observation_system>
After every tool call, the runtime returns an <observation> block containing the action result plus any detected state changes.
Use observations as the source of truth. Do not assume an action worked until terminal output, file changes, webpage state, monitor output, or another observation confirms it.
Use Observe when you need to inspect state directly:
- Observe: {\"target\":\"workspace\"} summarizes current workspace files.
- Observe: {\"target\":\"changes\"} reports file changes since the previous observation baseline.
- Observe: {\"target\":\"file\",\"path\":\"relative/file\",\"max_bytes\":12000} reads current file state.
- Observe: {\"target\":\"terminal\"} shows the latest terminal or monitor output observed by the runtime.
- Observe: {\"target\":\"monitor\",\"id\":1} reads a background monitor's output.
- Observe: {\"target\":\"web\",\"url\":\"https://example.com\",\"max_chars\":12000} fetches current webpage text and notes whether it changed since the last fetch.
- Observe: {\"target\":\"screen\"} summarizes visible TUI state available to this runtime: latest observation, terminal output, workspace changes, active monitors, and ComputerUse results such as screenshot paths.
</observation_system>";

/// The agent's view of its environment between actions.
pub struct ObservationSystem {
    workspace: String,
    last_workspace: WorkspaceSnapshot,
    last_terminal: String,
    last_observation: String,
    web_pages: Vec<(String, WebState)>,
}

/// Tools whose result is terminal output.
pub open spec fn terminal_tool(lower: Seq<char>) -> bool {
    lower == "bash"@ || lower == "monitor"@ || lower == "askuserquestion"@ || lower == "computeruse"@
        || lower == "computer_use"@ || lower == "computer-use"@ || lower == "computer use"@
}

/// What an observation says of the terminal after tool `lower`.
pub open spec fn terminal_note_spec(lower: Seq<char>) -> Seq<char> {
    if terminal_tool(lower) { "observed"@ } else { "not_applicable"@ }
}

/// What an observation says of web pages after tool `lower` answered
/// `result` (whose hash is `hash`), given the page records `pages`.
pub open spec fn web_note_spec(lower: Seq<char>, result: Seq<char>, pages: Seq<(String, WebState)>, hash: u64) -> Seq<char> {
    if lower == "webfetch"@ {
        fetch_note(fetched_url(result), page_lookup(pages, fetched_url(result)), byte_count(result) as nat, hash)
    } else if lower == "websearch"@ {
        "search results observed"@
    } else {
        "not_applicable"@
    }
}

/// The page records after tool `lower` answered `result` with hash `hash`:
/// a fetch records the page under its url; nothing else changes them.
pub open spec fn pages_step(lower: Seq<char>, result: Seq<char>, before: Seq<(String, WebState)>, after: Seq<(String, WebState)>, hash: u64) -> bool {
    if lower == "webfetch"@ {
        page_lookup(after, fetched_url(result)) == Some(WebState { len: byte_count(result), hash })
    } else {
        after == before
    }
}

/// The url a fetch result starts with (`url: …` on its first line).
pub open spec fn fetched_url(result: Seq<char>) -> Seq<char> {
    let ls = lines(result);
    if ls.len() > 0 && "url: "@.is_prefix_of(ls[0]) { ls[0].skip(5) } else { "unknown"@ }
}

pub open spec fn fetch_note(url: Seq<char>, prev: Option<WebState>, len: nat, hash: u64) -> Seq<char> {
    match prev {
        None => "observed "@ + url + " (first fetch, "@ + decimal(len) + " chars)"@,
        Some(p) => if p.hash == hash {
            "observed "@ + url + " (unchanged, "@ + decimal(len) + " chars)"@
        } else {
            "observed "@ + url + " (changed, "@ + decimal(p.len as nat) + " -> "@ + decimal(len) + " chars)"@
        },
    }
}

pub open spec fn page_note(prev: Option<WebState>, len: nat, hash: u64) -> Seq<char> {
    match prev {
        None => "first observation"@,
        Some(p) => if p.hash == hash {
            "unchanged since last observation ("@ + decimal(len) + " chars)"@
        } else {
            "changed since last observation ("@ + decimal(p.len as nat) + " -> "@ + decimal(len) + " chars)"@
        },
    }
}

/// The workspace-changes report between two snapshots.
pub open spec fn changes_report(before: WorkspaceSnapshot, after: WorkspaceSnapshot) -> Seq<char> {
    diff_report(
        created_paths(after.paths(), before.map()),
        modified_paths(after.paths(), before.map(), after.map()),
        created_paths(before.paths(), after.map()),
        before.is_truncated() || after.is_truncated(),
    )
}

/// The observation block after an action.
pub open spec fn observation_spec(tool: Seq<char>, result: Seq<char>, changes: Seq<char>, terminal: Seq<char>, webpage: Seq<char>) -> Seq<char> {
    "<observation tool=\""@ + tool + "\">\n<action_result>\n"@ + result + "\n</action_result>\n<workspace_changes>\n"@
        + changes + "\n</workspace_changes>\n<terminal_state>"@ + terminal + "</terminal_state>\n<webpage_state>"@
        + webpage
        + "</webpage_state>\n<screen_state>Tool result and state changes above are visible to the agent. Use Observe for follow-up inspection.</screen_state>\n</observation>"@
}

fn decimal_chars(n: usize) -> (out: Vec<char>)
    ensures
        out@ == decimal(n as nat),
{
    decimal_string(n as u64)
}

fn text_truncate(text: &str, max: usize) -> (out: String)
    ensures
        out@ == truncate_dots(text@, max as nat),
{
    let c = chars_of(text);
    let t = truncate_with_dots(c.as_slice(), max);
    string_of(t.as_slice())
}

impl ObservationSystem {
    pub closed spec fn workspace_path(&self) -> Seq<char> {
        self.workspace@
    }

    pub closed spec fn baseline(&self) -> WorkspaceSnapshot {
        self.last_workspace
    }

    pub closed spec fn terminal(&self) -> Seq<char> {
        self.last_terminal@
    }

    pub closed spec fn observation(&self) -> Seq<char> {
        self.last_observation@
    }

    pub closed spec fn pages(&self) -> Seq<(String, WebState)> {
        self.web_pages@
    }

    /// A system for `workspace` (already resolved) with `snapshot` as the
    /// first baseline.
    pub fn new(workspace: String, snapshot: WorkspaceSnapshot) -> (o: ObservationSystem)
        ensures
            o.workspace_path() == workspace@,
            o.baseline() == snapshot,
            o.terminal().len() == 0,
            o.observation() == "no observations yet"@,
            o.pages().len() == 0,
    {
        ObservationSystem {
            workspace,
            last_workspace: snapshot,
            last_terminal: String::new(),
            last_observation: String::from_str("no observations yet"),
            web_pages: Vec::new(),
        }
    }

    /// How to use observations, for the system prompt.
    pub fn system_prompt() -> (s: &'static str)
        ensures
            s@ == SYSTEM_PROMPT@,
    {
        SYSTEM_PROMPT
    }

    /// The workspace observed.
    pub fn workspace(&self) -> (s: &str)
        ensures
            s@ == self.workspace_path(),
    {
        self.workspace.as_str()
    }

    /// Record terminal output (from a tool or a monitor) as the latest seen.
    pub fn remember_terminal(&mut self, text: String)
        ensures
            final(self).terminal() == text@,
            final(self).workspace_path() == old(self).workspace_path(),
            final(self).baseline() == old(self).baseline(),
            final(self).observation() == old(self).observation(),
            final(self).pages() == old(self).pages(),
    {
        self.last_terminal = text;
    }

    fn lookup_page(&self, url: &str) -> (r: (Option<WebState>, usize))
        ensures
            r.0 == page_lookup(self.web_pages@, url@),
            r.0 is Some ==> r.1 < self.web_pages@.len() && self.web_pages@[r.1 as int].0@ == url@
                && forall|j: int| 0 <= j < r.1 ==> (#[trigger] self.web_pages@[j]).0@ != url@,
    {
        let u = chars_of(url);
        let mut i: usize = 0;
        assert(self.web_pages@.skip(0) =~= self.web_pages@);
        while i < self.web_pages.len()
            invariant
                i <= self.web_pages@.len(),
                u@ == url@,
                forall|j: int| 0 <= j < i ==> (#[trigger] self.web_pages@[j]).0@ != url@,
                page_lookup(self.web_pages@, url@) == page_lookup(self.web_pages@.skip(i as int), url@),
            decreases self.web_pages@.len() - i,
        {
            assert(self.web_pages@.skip(i as int)[0] == self.web_pages@[i as int]);
            assert(self.web_pages@.skip(i as int).drop_first() =~= self.web_pages@.skip(i + 1));
            let k = chars_of(self.web_pages[i].0.as_str());
            if crate::text::chars_eq(k.as_slice(), u.as_slice()) {
                return (Some(self.web_pages[i].1), i);
            }
            i += 1;
        }
        (None, 0)
    }

    /// Record a page's new state, returning the previous one.
    fn record_page(&mut self, url: &str, state: WebState) -> (prev: Option<WebState>)
        ensures
            prev == page_lookup(old(self).pages(), url@),
            page_lookup(final(self).pages(), url@) == Some(state),
            final(self).workspace_path() == old(self).workspace_path(),
            final(self).baseline() == old(self).baseline(),
            final(self).terminal() == old(self).terminal(),
            final(self).observation() == old(self).observation(),
    {
        let (prev, at) = self.lookup_page(url);
        let ghost before = self.web_pages@;
        match prev {
            Some(_) => {
                self.web_pages.set(at, (String::from_str(url), state));
                proof {
                    lemma_page_set(before, url@, at as int, self.web_pages@, state);
                }
            },
            None => {
                self.web_pages.push((String::from_str(url), state));
                proof {
                    lemma_page_push(before, url@, self.web_pages@, state);
                }
            },
        }
        prev
    }

    /// Note what a tool result says about the terminal.
    fn terminal_note(&mut self, tool: &str, result: &str) -> (note: String)
        ensures
            terminal_tool(unicode_lowercase(tool@)) ==> note@ == "observed"@ && final(self).terminal() == result@,
            !terminal_tool(unicode_lowercase(tool@)) ==> note@ == "not_applicable"@ && final(self).terminal() == old(self).terminal(),
            final(self).workspace_path() == old(self).workspace_path(),
            final(self).baseline() == old(self).baseline(),
            final(self).observation() == old(self).observation(),
            final(self).pages() == old(self).pages(),
    {
        let l = to_lowercase(tool);
        let c = chars_of(l.as_str());
        let s = c.as_slice();
        if chars_eq_str(s, "bash") || chars_eq_str(s, "monitor") || chars_eq_str(s, "askuserquestion")
            || chars_eq_str(s, "computeruse") || chars_eq_str(s, "computer_use") || chars_eq_str(s, "computer-use")
            || chars_eq_str(s, "computer use") {
            self.last_terminal = String::from_str(result);
            String::from_str("observed")
        } else {
            String::from_str("not_applicable")
        }
    }

    /// Note what a tool result says about web pages; `hash` is the result's
    /// hash, compared with the last fetch of the same url.
    pub fn webpage_note(&mut self, tool: &str, result: &str, hash: u64) -> (note: String)
        ensures
            ({
                let lower = unicode_lowercase(tool@);
                let url = fetched_url(result@);
                if lower == "webfetch"@ {
                    &&& note@ == fetch_note(url, page_lookup(old(self).pages(), url), byte_count(result@) as nat, hash)
                    &&& page_lookup(final(self).pages(), url) == Some(WebState { len: byte_count(result@), hash })
                } else {
                    &&& note@ == (if lower == "websearch"@ { "search results observed"@ } else { "not_applicable"@ })
                    &&& final(self).pages() == old(self).pages()
                }
            }),
            final(self).workspace_path() == old(self).workspace_path(),
            final(self).baseline() == old(self).baseline(),
            final(self).terminal() == old(self).terminal(),
            final(self).observation() == old(self).observation(),
    {
        let l = to_lowercase(tool);
        let c = chars_of(l.as_str());
        if chars_eq_str(c.as_slice(), "webfetch") {
            let r = chars_of(result);
            let ls = split_lines(r.as_slice());
            proof {
                reveal_strlit("url: ");
            }
            let url: Vec<char> = if ls.len() > 0 && starts_with_str(ls[0].as_slice(), "url: ") {
                let u = crate::text::slice_chars(ls[0].as_slice(), 5, ls[0].len());
                assert(u@ =~= ls@[0]@.skip(5));
                u
            } else {
                chars_of("unknown")
            };
            assert(url@ == fetched_url(result@));
            let len = result.len();
            let us = string_of(url.as_slice());
            let prev = self.record_page(us.as_str(), WebState { len, hash });
            let mut v = chars_of("observed ");
            extend_chars(&mut v, url.as_slice());
            match prev {
                None => {
                    extend_str(&mut v, " (first fetch, ");
                    extend_chars(&mut v, decimal_chars(len).as_slice());
                    extend_str(&mut v, " chars)");
                },
                Some(p) => {
                    if p.hash == hash {
                        extend_str(&mut v, " (unchanged, ");
                        extend_chars(&mut v, decimal_chars(len).as_slice());
                        extend_str(&mut v, " chars)");
                    } else {
                        extend_str(&mut v, " (changed, ");
                        extend_chars(&mut v, decimal_chars(p.len).as_slice());
                        extend_str(&mut v, " -> ");
                        extend_chars(&mut v, decimal_chars(len).as_slice());
                        extend_str(&mut v, " chars)");
                    }
                },
            }
            string_of(v.as_slice())
        } else if chars_eq_str(c.as_slice(), "websearch") {
            String::from_str("search results observed")
        } else {
            String::from_str("not_applicable")
        }
    }

    /// The observation after an action: the result, the workspace changes
    /// between the snapshots taken before and after it (the later one becomes
    /// the baseline), and what it showed of the terminal and web pages.
    pub fn after_action(&mut self, tool: &str, result: String, before: WorkspaceSnapshot, after: WorkspaceSnapshot) -> (out: String)
        ensures
            final(self).baseline() == after,
            final(self).observation() == truncate_dots(out@, 8000),
            final(self).workspace_path() == old(self).workspace_path(),
            exists|h: u64| #[trigger] pages_step(unicode_lowercase(tool@), result@, old(self).pages(), final(self).pages(), h)
                && out@ == observation_spec(tool@, result@, changes_report(before, after), terminal_note_spec(unicode_lowercase(tool@)),
                    web_note_spec(unicode_lowercase(tool@), result@, old(self).pages(), h)),
            terminal_tool(unicode_lowercase(tool@)) ==> final(self).terminal() == result@,
            !terminal_tool(unicode_lowercase(tool@)) ==> final(self).terminal() == old(self).terminal(),
    {
        let ghost pages0 = self.pages();
        let diff = before.diff(&after);
        self.last_workspace = after;
        let tn = self.terminal_note(tool, result.as_str());
        let h = text_hash(result.as_str());
        let wn = self.webpage_note(tool, result.as_str(), h);
        let changes = render_workspace_diff(&diff);
        let mut v = chars_of("<observation tool=\"");
        extend_str(&mut v, tool);
        extend_str(&mut v, "\">\n<action_result>\n");
        extend_str(&mut v, result.as_str());
        extend_str(&mut v, "\n</action_result>\n<workspace_changes>\n");
        extend_str(&mut v, changes.as_str());
        extend_str(&mut v, "\n</workspace_changes>\n<terminal_state>");
        extend_str(&mut v, tn.as_str());
        extend_str(&mut v, "</terminal_state>\n<webpage_state>");
        extend_str(&mut v, wn.as_str());
        extend_str(
            &mut v,
            "</webpage_state>\n<screen_state>Tool result and state changes above are visible to the agent. Use Observe for follow-up inspection.</screen_state>\n</observation>",
        );
        let observation = string_of(v.as_slice());
        assert(observation@ == observation_spec(tool@, result@, changes@, tn@, wn@));
        assert(changes@ == diff_report(
            created_paths(after.paths(), before.map()),
            modified_paths(after.paths(), before.map(), after.map()),
            created_paths(before.paths(), after.map()),
            before.is_truncated() || after.is_truncated(),
        ));
        assert(observation@ == observation_spec(tool@, result@, changes_report(before, after), tn@, wn@));
        assert(tn@ == terminal_note_spec(unicode_lowercase(tool@)));
        assert(wn@ == web_note_spec(unicode_lowercase(tool@), result@, pages0, h));
        assert(pages_step(unicode_lowercase(tool@), result@, pages0, self.pages(), h));
        self.last_observation = text_truncate(observation.as_str(), 8000);
        assert(pages_step(unicode_lowercase(tool@), result@, pages0, self.pages(), h));
        observation
    }

    /// The workspace listing; the snapshot becomes the baseline.
    pub fn observe_workspace(&mut self, current: WorkspaceSnapshot) -> (out: String)
        ensures
            out@ == "workspace: "@ + old(self).workspace_path() + "\n"@ + summary_spec(current.paths(), current.is_truncated()),
            final(self).baseline() == current,
            final(self).workspace_path() == old(self).workspace_path(),
    {
        let summary = current.render_summary();
        self.last_workspace = current;
        let mut v = chars_of("workspace: ");
        extend_str(&mut v, self.workspace.as_str());
        extend_str(&mut v, "\n");
        extend_str(&mut v, summary.as_str());
        string_of(v.as_slice())
    }

    /// The changes since the baseline; the snapshot becomes the new baseline.
    pub fn observe_changes(&mut self, current: WorkspaceSnapshot) -> (out: String)
        ensures
            out@ == changes_report(old(self).baseline(), current),
            final(self).baseline() == current,
            final(self).workspace_path() == old(self).workspace_path(),
    {
        let diff = self.last_workspace.diff(&current);
        self.last_workspace = current;
        render_workspace_diff(&diff)
    }

    /// The latest terminal output (cut to 12000 characters).
    pub fn observe_terminal(&self) -> (out: String)
        ensures
            out@ == (if trim(self.terminal()).len() == 0 {
                "no terminal output observed yet"@
            } else {
                truncate_dots(self.terminal(), 12000)
            }),
    {
        let t = trim_str(self.last_terminal.as_str());
        if t.len() == 0 {
            String::from_str("no terminal output observed yet")
        } else {
            text_truncate(self.last_terminal.as_str(), 12000)
        }
    }

    /// Everything visible: active monitors, the latest observation and the
    /// latest terminal output.
    pub fn observe_screen(&self, active_monitors: &str) -> (out: String)
        ensures
            out@ == "screen_state:\nactive_monitors:\n"@ + (if trim(active_monitors@).len() == 0 {
                "none"@
            } else {
                active_monitors@
            }) + "\nlatest_observation:\n"@ + truncate_dots(self.observation(), 4000) + "\nlatest_terminal:\n"@
                + truncate_dots(
                if trim(self.terminal()).len() == 0 {
                    "no terminal output observed yet"@
                } else {
                    truncate_dots(self.terminal(), 12000)
                },
                4000,
            ),
    {
        let mut v = chars_of("screen_state:\nactive_monitors:\n");
        let m = trim_str(active_monitors);
        if m.len() == 0 {
            extend_str(&mut v, "none");
        } else {
            extend_str(&mut v, active_monitors);
        }
        extend_str(&mut v, "\nlatest_observation:\n");
        let o = text_truncate(self.last_observation.as_str(), 4000);
        extend_str(&mut v, o.as_str());
        extend_str(&mut v, "\nlatest_terminal:\n");
        let t = self.observe_terminal();
        let tt = text_truncate(t.as_str(), 4000);
        extend_str(&mut v, tt.as_str());
        string_of(v.as_slice())
    }

    /// A fetched page, noting whether it changed since the last fetch of the
    /// same url.
    pub fn observe_webpage(&mut self, url: &str, text: &str) -> (out: String)
        ensures
            exists|h: u64| out@ == "url: "@ + url@ + "\nstate: "@ + #[trigger] page_note(page_lookup(old(self).pages(), url@), byte_count(text@) as nat, h)
                + "\ncontent_chars: "@ + decimal(byte_count(text@) as nat) + "\ncontent:\n"@ + text@
                && page_lookup(final(self).pages(), url@) == Some(WebState { len: byte_count(text@), hash: h }),
            final(self).workspace_path() == old(self).workspace_path(),
            final(self).baseline() == old(self).baseline(),
            final(self).terminal() == old(self).terminal(),
    {
        let len = text.len();
        let hash = text_hash(text);
        let prev = self.record_page(url, WebState { len, hash });
        let mut v = chars_of("url: ");
        extend_str(&mut v, url);
        extend_str(&mut v, "\nstate: ");
        match prev {
            None => extend_str(&mut v, "first observation"),
            Some(p) => {
                if p.hash == hash {
                    extend_str(&mut v, "unchanged since last observation (");
                    extend_chars(&mut v, decimal_chars(len).as_slice());
                    extend_str(&mut v, " chars)");
                } else {
                    extend_str(&mut v, "changed since last observation (");
                    extend_chars(&mut v, decimal_chars(p.len).as_slice());
                    extend_str(&mut v, " -> ");
                    extend_chars(&mut v, decimal_chars(len).as_slice());
                    extend_str(&mut v, " chars)");
                }
            },
        }
        extend_str(&mut v, "\ncontent_chars: ");
        extend_chars(&mut v, decimal_chars(len).as_slice());
        extend_str(&mut v, "\ncontent:\n");
        extend_str(&mut v, text);
        let out = string_of(v.as_slice());
        assert(out@ =~= "url: "@ + url@ + "\nstate: "@ + page_note(page_lookup(old(self).pages(), url@), byte_count(text@) as nat, hash)
            + "\ncontent_chars: "@ + decimal(byte_count(text@) as nat) + "\ncontent:\n"@ + text@);
        out
    }
}

/// The length of `s` in bytes (`str::len`).
pub open spec fn byte_count(s: Seq<char>) -> usize {
    vstd::utf8::encode_utf8(s).len() as usize
}

proof fn lemma_page_set(before: Seq<(String, WebState)>, url: Seq<char>, at: int, after: Seq<(String, WebState)>, state: WebState)
    requires
        0 <= at < before.len(),
        before[at].0@ == url,
        forall|j: int| 0 <= j < at ==> (#[trigger] before[j]).0@ != url,
        page_lookup(before, url) is Some,
        after.len() == before.len(),
        after[at].0@ == url,
        after[at].1 == state,
        forall|j: int| 0 <= j < after.len() && j != at ==> after[j] == before[j],
    ensures
        page_lookup(after, url) == Some(state),
    decreases before.len(),
{
    if before[0].0@ != url {
        assert(at > 0);
        assert(after[0] == before[0]);
        assert forall|j: int| 0 <= j < at - 1 implies (#[trigger] before.drop_first()[j]).0@ != url by {
            assert(before.drop_first()[j] == before[j + 1]);
        }
        lemma_page_set(before.drop_first(), url, at - 1, after.drop_first(), state);
    } else {
        assert(at == 0);
    }
}

proof fn lemma_page_push(before: Seq<(String, WebState)>, url: Seq<char>, after: Seq<(String, WebState)>, state: WebState)
    requires
        page_lookup(before, url) is None,
        after == before.push(after.last()),
        after.last().0@ == url,
        after.last().1 == state,
    ensures
        page_lookup(after, url) == Some(state),
    decreases before.len(),
{
    if before.len() > 0 {
        assert(after.drop_first() =~= before.drop_first().push(after.last()));
        lemma_page_push(before.drop_first(), url, after.drop_first(), state);
    }
}

/// Observing changes twice against an unchanged, complete workspace: the
/// second report (against the baseline the first one left) is "none
/// detected".
pub proof fn law_unchanged_workspace_reports_nothing(s: WorkspaceSnapshot)
    requires
        !s.is_truncated(),
    ensures
        changes_report(s, s) == "none detected"@,
{
    law_snapshot_has_no_changes_against_itself(s);
}

/// What an `Observe` call names as its target: `target`, else `kind`, else
/// `screen` (also when the member named is not a string).
pub open spec fn target_arg_spec(args: crate::json::JsonTree) -> Seq<char> {
    let v = match crate::json::get(args, "target"@) {
        Some(t) => Some(t),
        None => crate::json::get(args, "kind"@),
    };
    match v {
        Some(crate::json::JsonTree::Str(s)) => s,
        _ => "screen"@,
    }
}

/// The target an `Observe` call names.
pub fn target_arg(args: &crate::json::Json) -> (r: &str)
    ensures
        r@ == target_arg_spec(args@),
{
    let v = match args.get("target") {
        Some(t) => Some(t),
        None => args.get("kind"),
    };
    match v {
        Some(x) => match x.as_str() {
            Some(s) => s,
            None => "screen",
        },
        None => "screen",
    }
}

} // verus!
