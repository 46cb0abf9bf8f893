//! Accessibility-tree snapshots of an application: which nodes a test driver
//! can act on, the stable `e1`, `e2`, … references given to them, a plain-text
//! view of a snapshot, and an order-sensitive signature that tells whether the
//! screen changed.
use vstd::prelude::*;
use vstd::string::StrSliceExecFns;
use vstd::utf8::encode_utf8;
use crate::text::{
    ascii_lower, ascii_lower_exec, chars_of, cut_mark, cut_with_mark, decimal, decimal_string,
    extend_chars, extend_str, find_sub, find_sub_exec, in_list, slice_chars, squeeze_whitespace,
    squeeze_ws, starts_with_str, string_of, trim, trim_str,
};
use crate::permissions::listed;
use crate::text::{to_lowercase, unicode_lowercase, chars_eq_str};
use crate::json::{
    lemma_members_of, lemma_trees_of, members1, members2, members3, members4, members_of, trees_of,
    json_str, get_str, str_member, bool_member, get, json_compact, json_parse, json_text,
    parse_json, Json, JsonTree,
};

verus! {

broadcast use vstd::string::group_string_axioms;

/// A single node distilled from an accessibility tree.
#[derive(Debug)]
pub struct AxNode {
    pub role: String,
    pub title: String,
    pub description: String,
    /// String form of the node's value.
    pub value: String,
    pub enabled: bool,
    pub focused: bool,
    pub depth: usize,
    /// Stable ref ("e1", "e2", …) given only to actionable elements.
    pub reference: Option<String>,
}

impl Default for AxNode {
    fn default() -> (n: AxNode)
        ensures
            n.role@.len() == 0,
            n.title@.len() == 0,
            n.description@.len() == 0,
            n.value@.len() == 0,
            !n.enabled,
            !n.focused,
            n.depth == 0,
            n.reference is None,
    {
        AxNode {
            role: String::new(),
            title: String::new(),
            description: String::new(),
            value: String::new(),
            enabled: false,
            focused: false,
            depth: 0,
            reference: None,
        }
    }
}

impl Clone for AxNode {
    fn clone(&self) -> (n: AxNode)
        ensures
            same_node_fields(n, *self),
            opt_view(n.reference) == opt_view(self.reference),
    {
        AxNode {
            role: self.role.clone(),
            title: self.title.clone(),
            description: self.description.clone(),
            value: self.value.clone(),
            enabled: self.enabled,
            focused: self.focused,
            depth: self.depth,
            reference: clone_opt(&self.reference),
        }
    }
}

fn clone_opt(o: &Option<String>) -> (r: Option<String>)
    ensures
        opt_view(r) == opt_view(*o),
{
    match o {
        Some(s) => Some(s.clone()),
        None => None,
    }
}

/// The result of walking an application's accessibility tree once.
#[derive(Debug)]
pub struct Snapshot {
    pub nodes: Vec<AxNode>,
    /// True if the walk hit its element cap and stopped early.
    pub truncated: bool,
}

impl Default for Snapshot {
    fn default() -> (s: Snapshot)
        ensures
            s.nodes@.len() == 0,
            !s.truncated,
    {
        Snapshot { nodes: Vec::new(), truncated: false }
    }
}

/// Where to launch an app from.
#[derive(Clone, Debug, PartialEq, Eq)]
pub enum LaunchTarget {
    /// Application name, e.g. "Calculator".
    App(String),
    /// Filesystem path, e.g. "/Applications/Foo.app".
    Path(String),
    /// Bundle id, e.g. "com.apple.calculator".
    BundleId(String),
}

/// What a driver answered with text: the text, or the failure.
pub open spec fn res_view(r: Result<String, String>) -> Result<Seq<char>, Seq<char>> {
    match r {
        Ok(t) => Ok(t@),
        Err(e) => Err(e@),
    }
}

/// One call made on a driver, with its arguments and what it answered.
pub enum GuiEvent {
    Launch(LaunchTarget, Result<Seq<char>, Seq<char>>),
    View(Result<Snapshot, Seq<char>>),
    Click(Seq<char>, Result<Seq<char>, Seq<char>>),
    Type(Seq<char>, Seq<char>, Result<Seq<char>, Seq<char>>),
    Key(Seq<char>, Result<Seq<char>, Seq<char>>),
    Screenshot(Result<Seq<char>, Seq<char>>),
    ReadContract(Result<Seq<char>, Seq<char>>),
    Report(Seq<char>, bool, Seq<char>, Result<Seq<char>, Seq<char>>),
}

/// The effectful operations a GUI driver offers; a platform layer implements
/// them. Each operation adds itself, with its arguments and its answer, to
/// the driver's record of calls.
pub trait GuiActions {
    /// The calls made on the driver so far, oldest first. The record is a
    /// model only: it is never built at run time, and the default stands in
    /// for drivers written outside the library, which the operations'
    /// contracts describe.
    closed spec fn events(&self) -> Seq<GuiEvent> {
        Seq::empty()
    }

    /// Launch an application and make it the current target.
    fn launch(&mut self, target: LaunchTarget) -> (r: Result<String, String>)
        ensures
            final(self).events() == old(self).events().push(GuiEvent::Launch(target, res_view(r))),
    ;

    /// Walk the current target's tree and return a fresh snapshot.
    fn view(&mut self) -> (r: Result<Snapshot, String>)
        ensures
            final(self).events() == old(self).events().push(GuiEvent::View(match r {
                Ok(s) => Ok(s),
                Err(e) => Err(e@),
            })),
    ;

    /// Press the element with the given ref.
    fn click(&mut self, reference: &str) -> (r: Result<String, String>)
        ensures
            final(self).events() == old(self).events().push(GuiEvent::Click(reference@, res_view(r))),
    ;

    /// Set the value of the element with the given ref.
    fn type_text(&mut self, reference: &str, text: &str) -> (r: Result<String, String>)
        ensures
            final(self).events() == old(self).events().push(GuiEvent::Type(reference@, text@, res_view(r))),
    ;

    /// Send a key combo (e.g. "cmd+s").
    fn key(&mut self, combo: &str) -> (r: Result<String, String>)
        ensures
            final(self).events() == old(self).events().push(GuiEvent::Key(combo@, res_view(r))),
    ;

    /// Capture a screenshot and describe where it went.
    fn screenshot(&mut self) -> (r: Result<String, String>)
        ensures
            final(self).events() == old(self).events().push(GuiEvent::Screenshot(res_view(r))),
    ;

    /// Read the test contract file and return its text (pretty-printed when
    /// it is JSON).
    fn read_test_contract(&mut self) -> (r: Result<String, String>)
        ensures
            final(self).events() == old(self).events().push(GuiEvent::ReadContract(res_view(r))),
    ;

    /// Record a test result in the test contract file and describe it.
    fn record_result(&mut self, id: &str, pass: bool, note: &str) -> (r: Result<String, String>)
        ensures
            final(self).events() == old(self).events().push(GuiEvent::Report(id@, pass, note@, res_view(r))),
    ;
}

pub open spec fn opt_view(o: Option<String>) -> Option<Seq<char>> {
    match o {
        Some(s) => Some(s@),
        None => None,
    }
}

/// Every field but the reference agrees.
pub open spec fn same_node_fields(a: AxNode, b: AxNode) -> bool {
    &&& a.role@ == b.role@
    &&& a.title@ == b.title@
    &&& a.description@ == b.description@
    &&& a.value@ == b.value@
    &&& a.enabled == b.enabled
    &&& a.focused == b.focused
    &&& a.depth == b.depth
}

// ---------------------------------------------------------------------------
// Roles and refs
// ---------------------------------------------------------------------------

pub open spec fn lower_ascii(s: Seq<char>) -> Seq<char> {
    Seq::new(s.len(), |i: int| ascii_lower(s[i]))
}

/// A role for matching: trimmed, ASCII-lowercased, without a leading "ax".
pub open spec fn norm_role(role: Seq<char>) -> Seq<char> {
    let l = lower_ascii(trim(role));
    if "ax"@.is_prefix_of(l) { l.skip(2) } else { l }
}

/// Roles a test driver would plausibly click, type into, toggle or select.
pub open spec fn actionable_roles() -> Seq<&'static str> {
    seq![
        "button",
        "menubutton",
        "popupbutton",
        "menuitem",
        "menubaritem",
        "checkbox",
        "radiobutton",
        "textfield",
        "securetextfield",
        "textarea",
        "searchfield",
        "combobox",
        "slider",
        "incrementor",
        "stepper",
        "link",
        "tab",
        "disclosuretriangle",
        "cell",
        "row",
        "colorwell",
        "segmentedcontrol",
    ]
}

pub open spec fn actionable(role: Seq<char>) -> bool {
    listed(actionable_roles(), norm_role(role))
}

fn lower_ascii_chars(v: &[char]) -> (out: Vec<char>)
    ensures
        out@ == lower_ascii(v@),
{
    let mut out: Vec<char> = Vec::new();
    let mut i: usize = 0;
    while i < v.len()
        invariant
            i <= v@.len(),
            out@ == lower_ascii(v@.take(i as int)),
        decreases v@.len() - i,
    {
        out.push(ascii_lower_exec(v[i]));
        i += 1;
        assert(out@ =~= lower_ascii(v@.take(i as int)));
    }
    assert(v@.take(i as int) =~= v@);
    out
}

fn normalize_role_chars(role: &str) -> (out: Vec<char>)
    ensures
        out@ == norm_role(role@),
{
    let t = trim_str(role);
    let l = lower_ascii_chars(t.as_slice());
    proof {
        reveal_strlit("ax");
    }
    if starts_with_str(l.as_slice(), "ax") {
        let r = slice_chars(l.as_slice(), 2, l.len());
        assert(r@ =~= l@.skip(2));
        r
    } else {
        l
    }
}

/// Normalize a role for matching: lowercase and strip a leading "ax".
pub fn normalize_role(role: &str) -> (out: String)
    ensures
        out@ == norm_role(role@),
{
    let v = normalize_role_chars(role);
    string_of(v.as_slice())
}

/// Whether a role names an element worth giving a ref to (case-insensitive,
/// with or without the "AX" prefix).
pub fn is_actionable(role: &str) -> (b: bool)
    ensures
        b == actionable(role@),
{
    let norm = normalize_role_chars(role);
    let roles: [&str; 22] = [
        "button",
        "menubutton",
        "popupbutton",
        "menuitem",
        "menubaritem",
        "checkbox",
        "radiobutton",
        "textfield",
        "securetextfield",
        "textarea",
        "searchfield",
        "combobox",
        "slider",
        "incrementor",
        "stepper",
        "link",
        "tab",
        "disclosuretriangle",
        "cell",
        "row",
        "colorwell",
        "segmentedcontrol",
    ];
    assert(roles@ == actionable_roles());
    in_list(norm.as_slice(), &roles)
}

/// Number of actionable nodes.
pub open spec fn count_actionable(nodes: Seq<AxNode>) -> nat
    decreases nodes.len(),
{
    if nodes.len() == 0 {
        0
    } else {
        count_actionable(nodes.drop_last()) + if actionable(nodes.last().role@) { 1nat } else { 0nat }
    }
}

/// The ref of the `n`-th actionable node: `e1`, `e2`, …
pub open spec fn ref_name(n: nat) -> Seq<char> {
    seq!['e'] + decimal(n)
}

/// What `assign_refs` leaves in node `i`.
pub open spec fn ref_assigned(old_nodes: Seq<AxNode>, new_node: AxNode, i: int) -> bool {
    &&& same_node_fields(new_node, old_nodes[i])
    &&& opt_view(new_node.reference) == if actionable(old_nodes[i].role@) {
        Some(ref_name(count_actionable(old_nodes.take(i + 1))))
    } else {
        None
    }
}

proof fn lemma_count_actionable_bound(nodes: Seq<AxNode>)
    ensures
        count_actionable(nodes) <= nodes.len(),
    decreases nodes.len(),
{
    if nodes.len() > 0 {
        lemma_count_actionable_bound(nodes.drop_last());
    }
}

/// Assign stable references e1..eN to actionable nodes, in document order,
/// clearing it on all others; returns the number assigned.
pub fn assign_refs(nodes: &mut [AxNode]) -> (count: usize)
    ensures
        count == count_actionable(old(nodes)@),
        final(nodes)@.len() == old(nodes)@.len(),
        forall|i: int| 0 <= i < old(nodes)@.len() ==> ref_assigned(old(nodes)@, #[trigger] final(nodes)@[i], i),
{
    let ghost orig = nodes@;
    let mut counter: usize = 0;
    let mut i: usize = 0;
    while i < nodes.len()
        invariant
            i <= nodes@.len(),
            nodes@.len() == orig.len(),
            counter == count_actionable(orig.take(i as int)),
            forall|j: int| i <= j < orig.len() ==> nodes@[j] == orig[j],
            forall|j: int| 0 <= j < i ==> ref_assigned(orig, #[trigger] nodes@[j], j),
        decreases nodes@.len() - i,
    {
        proof {
            assert(orig.take(i + 1).drop_last() =~= orig.take(i as int));
            lemma_count_actionable_bound(orig.take(i as int));
        }
        let reference = if is_actionable(nodes[i].role.as_str()) {
            counter += 1;
            let mut r = vec!['e'];
            let d = decimal_string(counter as u64);
            extend_chars(&mut r, d.as_slice());
            assert(r@ =~= ref_name(counter as nat));
            Some(string_of(r.as_slice()))
        } else {
            None
        };
        let old_node = &nodes[i];
        let node = AxNode {
            role: old_node.role.clone(),
            title: old_node.title.clone(),
            description: old_node.description.clone(),
            value: old_node.value.clone(),
            enabled: old_node.enabled,
            focused: old_node.focused,
            depth: old_node.depth,
            reference,
        };
        nodes[i] = node;
        i += 1;
    }
    assert(orig.take(i as int) =~= orig);
    counter
}

// ---------------------------------------------------------------------------
// Labels and text
// ---------------------------------------------------------------------------

/// Whitespace squeezed to single spaces, cut to `max` characters with `…`.
pub open spec fn one_line_spec(text: Seq<char>, max: nat) -> Seq<char> {
    cut_mark(squeeze_ws(text), max)
}

/// `text` on one line: whitespace squeezed, cut to `max` characters with `…`.
pub fn one_line(text: &str, max: usize) -> (out: String)
    ensures
        out@ == one_line_spec(text@, max as nat),
{
    let v = chars_of(text);
    let c = squeeze_whitespace(v.as_slice());
    let r = cut_with_mark(c.as_slice(), max);
    string_of(r.as_slice())
}

/// The first non-blank of title, description and value, on one line.
pub open spec fn label_spec(n: AxNode) -> Seq<char> {
    if trim(n.title@).len() > 0 {
        one_line_spec(trim(n.title@), 80)
    } else if trim(n.description@).len() > 0 {
        one_line_spec(trim(n.description@), 80)
    } else if trim(n.value@).len() > 0 {
        one_line_spec(trim(n.value@), 80)
    } else {
        Seq::empty()
    }
}

fn label_chars(node: &AxNode) -> (out: Vec<char>)
    ensures
        out@ == label_spec(*node),
{
    let t = trim_str(node.title.as_str());
    if t.len() > 0 {
        let c = squeeze_whitespace(t.as_slice());
        return cut_with_mark(c.as_slice(), 80);
    }
    let t = trim_str(node.description.as_str());
    if t.len() > 0 {
        let c = squeeze_whitespace(t.as_slice());
        return cut_with_mark(c.as_slice(), 80);
    }
    let t = trim_str(node.value.as_str());
    if t.len() > 0 {
        let c = squeeze_whitespace(t.as_slice());
        return cut_with_mark(c.as_slice(), 80);
    }
    Vec::new()
}

/// A short, human-readable label for a node.
pub fn node_label(node: &AxNode) -> (out: String)
    ensures
        out@ == label_spec(*node),
{
    let v = label_chars(node);
    string_of(v.as_slice())
}

/// The line a node with a ref contributes to the text view.
pub open spec fn node_line(n: AxNode, r: Seq<char>) -> Seq<char> {
    let label = label_spec(n);
    "["@ + r + "] "@ + norm_role(n.role@) + (if label.len() > 0 {
        " \""@ + label + "\""@
    } else {
        Seq::empty()
    }) + (if !n.enabled { " (disabled)"@ } else { Seq::empty() }) + (if n.focused {
        " (focused)"@
    } else {
        Seq::empty()
    }) + "\n"@
}

pub open spec fn node_lines(nodes: Seq<AxNode>) -> Seq<char>
    decreases nodes.len(),
{
    if nodes.len() == 0 {
        Seq::empty()
    } else {
        node_lines(nodes.drop_last()) + match nodes.last().reference {
            Some(r) => node_line(nodes.last(), r@),
            None => Seq::empty(),
        }
    }
}

pub open spec fn count_refs(nodes: Seq<AxNode>) -> nat
    decreases nodes.len(),
{
    if nodes.len() == 0 {
        0
    } else {
        count_refs(nodes.drop_last()) + if nodes.last().reference is Some { 1nat } else { 0nat }
    }
}

/// The plain-text view: one line per node with a ref, notes for an empty
/// list and a truncated walk, then the signature.
pub open spec fn snapshot_text_spec(s: Snapshot) -> Seq<char> {
    node_lines(s.nodes@) + (if count_refs(s.nodes@) == 0 {
        "(no actionable elements found)\n"@
    } else {
        Seq::empty()
    }) + (if s.truncated {
        "… (snapshot truncated at element cap)\n"@
    } else {
        Seq::empty()
    }) + "signature: "@ + hex16(signature_hash(s.nodes@)) + "\n"@
}

fn push_node_line(v: &mut Vec<char>, node: &AxNode, r: &String)
    ensures
        final(v)@ == old(v)@ + node_line(*node, r@),
{
    let ghost before = v@;
    extend_str(v, "[");
    extend_str(v, r.as_str());
    extend_str(v, "] ");
    let role = normalize_role_chars(node.role.as_str());
    extend_chars(v, role.as_slice());
    let label = label_chars(node);
    let ghost m1 = v@;
    if label.len() > 0 {
        extend_str(v, " \"");
        extend_chars(v, label.as_slice());
        extend_str(v, "\"");
    } else {
        assert(v@ =~= m1 + Seq::<char>::empty());
    }
    let ghost m2 = v@;
    if !node.enabled {
        extend_str(v, " (disabled)");
    } else {
        assert(v@ =~= m2 + Seq::<char>::empty());
    }
    let ghost m3 = v@;
    if node.focused {
        extend_str(v, " (focused)");
    } else {
        assert(v@ =~= m3 + Seq::<char>::empty());
    }
    extend_str(v, "\n");
    assert(v@ =~= before + node_line(*node, r@));
}

/// A render of the snapshot as plain text.
pub fn snapshot_to_text(snapshot: &Snapshot) -> (out: String)
    ensures
        out@ == snapshot_text_spec(*snapshot),
{
    let mut v: Vec<char> = Vec::new();
    let mut listed_count: usize = 0;
    let mut i: usize = 0;
    let ghost nodes = snapshot.nodes@;
    while i < snapshot.nodes.len()
        invariant
            i <= nodes.len(),
            nodes == snapshot.nodes@,
            v@ == node_lines(nodes.take(i as int)),
            listed_count == count_refs(nodes.take(i as int)),
            listed_count <= i,
        decreases nodes.len() - i,
    {
        assert(nodes.take(i + 1).drop_last() =~= nodes.take(i as int));
        let node = &snapshot.nodes[i];
        match &node.reference {
            Some(r) => {
                listed_count += 1;
                push_node_line(&mut v, node, r);
            },
            None => {
                assert(v@ =~= v@ + Seq::<char>::empty());
            },
        }
        i += 1;
    }
    assert(nodes.take(i as int) =~= nodes);
    let ghost m0 = v@;
    if listed_count == 0 {
        extend_str(&mut v, "(no actionable elements found)\n");
    } else {
        assert(v@ =~= m0 + Seq::<char>::empty());
    }
    let ghost m1 = v@;
    if snapshot.truncated {
        extend_str(&mut v, "… (snapshot truncated at element cap)\n");
    } else {
        assert(v@ =~= m1 + Seq::<char>::empty());
    }
    extend_str(&mut v, "signature: ");
    let sig = signature_chars(snapshot);
    extend_chars(&mut v, sig.as_slice());
    extend_str(&mut v, "\n");
    string_of(v.as_slice())
}

// ---------------------------------------------------------------------------
// Signature
// ---------------------------------------------------------------------------

pub open spec fn fnv_offset() -> u64 {
    0xcbf2_9ce4_8422_2325u64
}

pub open spec fn fnv_prime() -> u64 {
    0x0000_0100_0000_01b3u64
}

/// One FNV-1a step.
pub open spec fn fnv_step(h: u64, b: u8) -> u64 {
    (h ^ (b as u64)).wrapping_mul(fnv_prime())
}

/// FNV-1a (64-bit) of `bytes`, continuing from `h`.
pub open spec fn fnv(h: u64, bytes: Seq<u8>) -> u64
    decreases bytes.len(),
{
    if bytes.len() == 0 { h } else { fnv_step(fnv(h, bytes.drop_last()), bytes.last()) }
}

/// A node's contribution: its role, title and value in UTF-8, the first two
/// followed by a unit separator (0x1f) and the last by a record separator
/// (0x1e).
pub open spec fn feed_node(h: u64, n: AxNode) -> u64 {
    let h1 = fnv(h, encode_utf8(n.role@));
    let h2 = fnv_step(h1, 0x1fu8);
    let h3 = fnv(h2, encode_utf8(n.title@));
    let h4 = fnv_step(h3, 0x1fu8);
    let h5 = fnv(h4, encode_utf8(n.value@));
    fnv_step(h5, 0x1eu8)
}

/// The hash of a whole snapshot, node by node in order.
pub open spec fn signature_hash(nodes: Seq<AxNode>) -> u64
    decreases nodes.len(),
{
    if nodes.len() == 0 {
        fnv_offset()
    } else {
        feed_node(signature_hash(nodes.drop_last()), nodes.last())
    }
}

pub open spec fn hex_digit(d: nat) -> char {
    if d < 10 {
        ((d + 48) as u32) as char
    } else {
        ((d - 10 + 97) as u32) as char
    }
}

/// The last `n` hexadecimal digits of `h`, lowercase, zero-padded.
pub open spec fn hex_digits(h: nat, n: nat) -> Seq<char>
    decreases n,
{
    if n == 0 { Seq::empty() } else { hex_digits(h / 16, (n - 1) as nat).push(hex_digit(h % 16)) }
}

/// `h` as 16 lowercase hexadecimal digits (`{:016x}`).
pub open spec fn hex16(h: u64) -> Seq<char> {
    hex_digits(h as nat, 16)
}

/// Two node lists that agree, place by place, on role, title and value.
pub open spec fn same_signed_fields(a: Seq<AxNode>, b: Seq<AxNode>) -> bool {
    &&& a.len() == b.len()
    &&& forall|i: int| 0 <= i < a.len() ==> (#[trigger] a[i]).role@ == b[i].role@ && a[i].title@ == b[i].title@
        && a[i].value@ == b[i].value@
}

proof fn lemma_signature_fields(a: Seq<AxNode>, b: Seq<AxNode>)
    requires
        same_signed_fields(a, b),
    ensures
        signature_hash(a) == signature_hash(b),
    decreases a.len(),
{
    if a.len() > 0 {
        let n = (a.len() - 1) as int;
        assert(a[n].role@ == b[n].role@);
        lemma_signature_fields(a.drop_last(), b.drop_last());
    }
}

proof fn lemma_hex_digits(h: nat, n: nat)
    ensures
        hex_digits(h, n).len() == n,
        forall|i: int| 0 <= i < n ==> {
            let c = #[trigger] hex_digits(h, n)[i];
            ('0' <= c <= '9') || ('a' <= c <= 'f')
        },
    decreases n,
{
    if n > 0 {
        lemma_hex_digits(h / 16, (n - 1) as nat);
        let d = h % 16;
        assert(d < 16);
        if d < 10 {
            assert((d + 48) as u32 as char >= '0');
        }
    }
}

/// The signature reads only each node's role, title and value, in order:
/// snapshots that agree on those have the same signature, whatever their
/// descriptions, states, depths, refs or truncation. It is always sixteen
/// lowercase hexadecimal digits.
pub proof fn law_signature_reads_roles_titles_values(a: Snapshot, b: Snapshot)
    requires
        same_signed_fields(a.nodes@, b.nodes@),
    ensures
        hex16(signature_hash(a.nodes@)) == hex16(signature_hash(b.nodes@)),
        hex16(signature_hash(a.nodes@)).len() == 16,
        forall|i: int| 0 <= i < 16 ==> {
            let c = #[trigger] hex16(signature_hash(a.nodes@))[i];
            ('0' <= c <= '9') || ('a' <= c <= 'f')
        },
{
    lemma_signature_fields(a.nodes@, b.nodes@);
    lemma_hex_digits(signature_hash(a.nodes@) as nat, 16);
}

fn hex_char(d: u64) -> (c: char)
    requires
        d < 16,
    ensures
        c == hex_digit(d as nat),
{
    if d < 10 {
        let b = (d + 48) as u32;
        crate::text::char_from_ascii(b)
    } else {
        let b = (d - 10 + 97) as u32;
        crate::text::char_from_ascii(b)
    }
}

fn hex_pad(h: u64, n: usize) -> (out: Vec<char>)
    ensures
        out@ == hex_digits(h as nat, n as nat),
    decreases n,
{
    if n == 0 {
        Vec::new()
    } else {
        let mut v = hex_pad(h / 16, n - 1);
        v.push(hex_char(h % 16));
        v
    }
}

fn feed_bytes(h: u64, bytes: &[u8]) -> (r: u64)
    ensures
        r == fnv(h, bytes@),
{
    let mut acc = h;
    let mut i: usize = 0;
    while i < bytes.len()
        invariant
            i <= bytes@.len(),
            acc == fnv(h, bytes@.take(i as int)),
        decreases bytes@.len() - i,
    {
        assert(bytes@.take(i + 1).drop_last() =~= bytes@.take(i as int));
        acc = (acc ^ (bytes[i] as u64)).wrapping_mul(0x0000_0100_0000_01b3u64);
        i += 1;
    }
    assert(bytes@.take(i as int) =~= bytes@);
    acc
}

fn feed_str(h: u64, s: &str) -> (r: u64)
    ensures
        r == fnv(h, encode_utf8(s@)),
{
    let b = s.as_bytes_vec();
    feed_bytes(h, b.as_slice())
}

fn signature_chars(snapshot: &Snapshot) -> (out: Vec<char>)
    ensures
        out@ == hex16(signature_hash(snapshot.nodes@)),
{
    let mut hash: u64 = 0xcbf2_9ce4_8422_2325u64;
    let mut i: usize = 0;
    let ghost nodes = snapshot.nodes@;
    while i < snapshot.nodes.len()
        invariant
            i <= nodes.len(),
            nodes == snapshot.nodes@,
            hash == signature_hash(nodes.take(i as int)),
        decreases nodes.len() - i,
    {
        assert(nodes.take(i + 1).drop_last() =~= nodes.take(i as int));
        let node = &snapshot.nodes[i];
        hash = feed_str(hash, node.role.as_str());
        hash = (hash ^ 0x1fu64).wrapping_mul(0x0000_0100_0000_01b3u64);
        hash = feed_str(hash, node.title.as_str());
        hash = (hash ^ 0x1fu64).wrapping_mul(0x0000_0100_0000_01b3u64);
        hash = feed_str(hash, node.value.as_str());
        hash = (hash ^ 0x1eu64).wrapping_mul(0x0000_0100_0000_01b3u64);
        i += 1;
    }
    assert(nodes.take(i as int) =~= nodes);
    hex_pad(hash, 16)
}

/// A stable, order-sensitive signature over the roles, titles and values of
/// a snapshot: FNV-1a (64-bit), as 16 lowercase hexadecimal digits.
pub fn snapshot_signature(snapshot: &Snapshot) -> (out: String)
    ensures
        out@ == hex16(signature_hash(snapshot.nodes@)),
{
    let v = signature_chars(snapshot);
    string_of(v.as_slice())
}

// ---------------------------------------------------------------------------
// Searching a snapshot
// ---------------------------------------------------------------------------

pub open spec fn contains_seq(hay: Seq<char>, needle: Seq<char>) -> bool {
    find_sub(hay, needle, 0) >= 0
}

/// Whether the lowercased role, title or value holds `needle`.
pub open spec fn node_mentions(n: AxNode, needle: Seq<char>) -> bool {
    ||| contains_seq(unicode_lowercase(n.role@), needle)
    ||| contains_seq(unicode_lowercase(n.title@), needle)
    ||| contains_seq(unicode_lowercase(n.value@), needle)
}

fn mentions(hay: &str, needle: &[char]) -> (b: bool)
    ensures
        b == contains_seq(unicode_lowercase(hay@), needle@),
{
    let l = to_lowercase(hay);
    let v = chars_of(l.as_str());
    find_sub_exec(v.as_slice(), needle, 0).is_some()
}

/// Whether some node's lowercased role, title or value holds the lowercased
/// `needle` (an empty needle is always found).
pub open spec fn snapshot_has(s: Snapshot, needle: Seq<char>) -> bool {
    unicode_lowercase(needle).len() == 0 || exists|i: int|
        0 <= i < s.nodes@.len() && node_mentions(#[trigger] s.nodes@[i], unicode_lowercase(needle))
}

/// Case-insensitive substring search across every node's role, title and
/// value; an empty needle matches.
pub fn snapshot_contains(snapshot: &Snapshot, needle: &str) -> (b: bool)
    ensures
        b == snapshot_has(*snapshot, needle@),
{
    let nl = to_lowercase(needle);
    let n = chars_of(nl.as_str());
    if n.len() == 0 {
        return true;
    }
    let mut i: usize = 0;
    while i < snapshot.nodes.len()
        invariant
            i <= snapshot.nodes@.len(),
            n@ == unicode_lowercase(needle@),
            forall|j: int| 0 <= j < i ==> !node_mentions(#[trigger] snapshot.nodes@[j], n@),
        decreases snapshot.nodes@.len() - i,
    {
        let node = &snapshot.nodes[i];
        if mentions(node.role.as_str(), n.as_slice()) || mentions(node.title.as_str(), n.as_slice())
            || mentions(node.value.as_str(), n.as_slice()) {
            return true;
        }
        i += 1;
    }
    false
}

// ---------------------------------------------------------------------------
// The snapshot as JSON
// ---------------------------------------------------------------------------

pub open spec fn opt_member(present: bool, key: Seq<char>, value: JsonTree) -> Seq<(Seq<char>, JsonTree)> {
    if present { seq![(key, value)] } else { Seq::empty() }
}

/// The JSON entry of an element that has a reference.
pub open spec fn element_tree(n: AxNode, reference: Seq<char>) -> JsonTree {
    JsonTree::Object(seq![("enabled"@, JsonTree::Bool(n.enabled))]
        + opt_member(n.focused, "focused"@, JsonTree::Bool(true))
        + opt_member(label_spec(n).len() > 0, "label"@, JsonTree::Str(label_spec(n)))
        + seq![("ref"@, JsonTree::Str(reference)), ("role"@, JsonTree::Str(n.role@))]
        + opt_member(trim(n.title@).len() > 0, "title"@, JsonTree::Str(one_line_spec(trim(n.title@), 120)))
        + opt_member(trim(n.value@).len() > 0, "value"@, JsonTree::Str(one_line_spec(trim(n.value@), 120))))
}

/// The entries of the elements that have references, in order.
pub open spec fn element_trees(nodes: Seq<AxNode>) -> Seq<JsonTree>
    decreases nodes.len(),
{
    if nodes.len() == 0 {
        Seq::empty()
    } else {
        element_trees(nodes.drop_last()) + match nodes.last().reference {
            Some(r) => seq![element_tree(nodes.last(), r@)],
            None => Seq::empty(),
        }
    }
}

pub open spec fn count_tree(n: nat) -> JsonTree {
    JsonTree::Number(Some(n as u64), decimal(n))
}

/// The snapshot as the JSON a client reads.
pub open spec fn snapshot_json_spec(s: Snapshot) -> JsonTree {
    let elements = element_trees(s.nodes@);
    JsonTree::Object(seq![
        ("actionable_count"@, count_tree(elements.len())),
        ("elements"@, JsonTree::Array(elements)),
        ("signature"@, JsonTree::Str(hex16(signature_hash(s.nodes@)))),
        ("total_nodes"@, count_tree(s.nodes@.len())),
        ("truncated"@, JsonTree::Bool(s.truncated)),
    ])
}

fn push_member(ms: &mut Vec<(String, Json)>, key: &str, value: Json)
    ensures
        members_of(final(ms)@) == members_of(old(ms)@) + seq![(key@, value@)],
{
    let ghost before = ms@;
    ms.push((String::from_str(key), value));
    proof {
        lemma_members_of(before);
        lemma_members_of(ms@);
        assert(members_of(ms@) =~= members_of(before) + seq![(key@, value@)]);
    }
}

fn count_json(n: usize) -> (r: Json)
    ensures
        r@ == count_tree(n as nat),
{
    let d = decimal_string(n as u64);
    Json::Number(Some(n as u64), string_of(d.as_slice()))
}

fn element_json(n: &AxNode, reference: &String) -> (r: Json)
    ensures
        r@ == element_tree(*n, reference@),
{
    let mut ms: Vec<(String, Json)> = Vec::new();
    assert(members_of(ms@) =~= Seq::empty());
    push_member(&mut ms, "enabled", Json::Bool(n.enabled));
    let ghost a = members_of(ms@);
    if n.focused {
        push_member(&mut ms, "focused", Json::Bool(true));
    }
    assert(members_of(ms@) =~= a + opt_member(n.focused, "focused"@, JsonTree::Bool(true)));
    let ghost b = members_of(ms@);
    let label = node_label(n);
    if label.unicode_len() > 0 {
        push_member(&mut ms, "label", Json::Str(label));
    }
    assert(members_of(ms@) =~= b + opt_member(label_spec(*n).len() > 0, "label"@, JsonTree::Str(label_spec(*n))));
    push_member(&mut ms, "ref", Json::Str(reference.clone()));
    push_member(&mut ms, "role", Json::Str(n.role.clone()));
    let ghost c = members_of(ms@);
    let t = trim_str(n.title.as_str());
    if t.len() > 0 {
        let ts = string_of(t.as_slice());
        push_member(&mut ms, "title", Json::Str(one_line(ts.as_str(), 120)));
    }
    assert(members_of(ms@) =~= c + opt_member(trim(n.title@).len() > 0, "title"@, JsonTree::Str(one_line_spec(trim(n.title@), 120))));
    let ghost d = members_of(ms@);
    let v = trim_str(n.value.as_str());
    if v.len() > 0 {
        let vs = string_of(v.as_slice());
        push_member(&mut ms, "value", Json::Str(one_line(vs.as_str(), 120)));
    }
    assert(members_of(ms@) =~= d + opt_member(trim(n.value@).len() > 0, "value"@, JsonTree::Str(one_line_spec(trim(n.value@), 120))));
    assert(members_of(ms@) =~= seq![("enabled"@, JsonTree::Bool(n.enabled))]
        + opt_member(n.focused, "focused"@, JsonTree::Bool(true))
        + opt_member(label_spec(*n).len() > 0, "label"@, JsonTree::Str(label_spec(*n)))
        + seq![("ref"@, JsonTree::Str(reference@)), ("role"@, JsonTree::Str(n.role@))]
        + opt_member(trim(n.title@).len() > 0, "title"@, JsonTree::Str(one_line_spec(trim(n.title@), 120)))
        + opt_member(trim(n.value@).len() > 0, "value"@, JsonTree::Str(one_line_spec(trim(n.value@), 120))));
    Json::Object(ms)
}

/// The snapshot as JSON: the elements that have references, how many there
/// are, the node count, whether the walk was cut short, and the signature.
pub fn snapshot_to_json(snapshot: &Snapshot) -> (r: Json)
    ensures
        r@ == snapshot_json_spec(*snapshot),
{
    let mut elements: Vec<Json> = Vec::new();
    let mut i: usize = 0;
    while i < snapshot.nodes.len()
        invariant
            i <= snapshot.nodes@.len(),
            trees_of(elements@) == element_trees(snapshot.nodes@.take(i as int)),
            elements@.len() == trees_of(elements@).len(),
        decreases snapshot.nodes@.len() - i,
    {
        let ghost nodes = snapshot.nodes@.take(i + 1);
        assert(nodes.drop_last() =~= snapshot.nodes@.take(i as int));
        assert(nodes.last() == snapshot.nodes@[i as int]);
        let n = &snapshot.nodes[i];
        let ghost before = elements@;
        match &n.reference {
            Some(r) => {
                let e = element_json(n, r);
                elements.push(e);
                proof {
                    lemma_trees_of(before);
                    lemma_trees_of(elements@);
                    assert(trees_of(elements@) =~= trees_of(before) + seq![e@]);
                }
            },
            None => {
                assert(trees_of(elements@) =~= trees_of(before) + Seq::<JsonTree>::empty());
            },
        }
        proof {
            lemma_trees_of(elements@);
        }
        i += 1;
    }
    assert(snapshot.nodes@.take(i as int) =~= snapshot.nodes@);
    let count = count_json(elements.len());
    let total = count_json(snapshot.nodes.len());
    let sig = snapshot_signature(snapshot);
    let ms = vec![
        (String::from_str("actionable_count"), count),
        (String::from_str("elements"), Json::Array(elements)),
        (String::from_str("signature"), Json::Str(sig)),
        (String::from_str("total_nodes"), total),
        (String::from_str("truncated"), Json::Bool(snapshot.truncated)),
    ];
    proof {
        lemma_members_of(ms@);
    }
    let r = Json::Object(ms);
    assert(members_of(ms@) =~= seq![
        ("actionable_count"@, count@),
        ("elements"@, ms@[1].1@),
        ("signature"@, JsonTree::Str(sig@)),
        ("total_nodes"@, total@),
        ("truncated"@, JsonTree::Bool(snapshot.truncated)),
    ]);
    r
}

// ---------------------------------------------------------------------------
// The tool catalogue
// ---------------------------------------------------------------------------

/// A string property of an input schema.
pub open spec fn string_prop(description: Seq<char>) -> JsonTree {
    JsonTree::Object(seq![("description"@, JsonTree::Str(description)), ("type"@, JsonTree::Str("string"@))])
}

/// An object input schema with the given properties; `required` lists the
/// names that must be given (the member is left out when there are none).
pub open spec fn object_schema(props: Seq<(Seq<char>, JsonTree)>, required: Seq<JsonTree>) -> JsonTree {
    if required.len() == 0 {
        JsonTree::Object(seq![
            ("additionalProperties"@, JsonTree::Bool(false)),
            ("properties"@, JsonTree::Object(props)),
            ("type"@, JsonTree::Str("object"@)),
        ])
    } else {
        JsonTree::Object(seq![
            ("additionalProperties"@, JsonTree::Bool(false)),
            ("properties"@, JsonTree::Object(props)),
            ("required"@, JsonTree::Array(required)),
            ("type"@, JsonTree::Str("object"@)),
        ])
    }
}

/// One advertised tool.
pub open spec fn tool_entry(name: Seq<char>, description: Seq<char>, schema: JsonTree) -> JsonTree {
    JsonTree::Object(seq![
        ("description"@, JsonTree::Str(description)),
        ("inputSchema"@, schema),
        ("name"@, JsonTree::Str(name)),
    ])
}

pub open spec fn launch_tool() -> JsonTree {
    tool_entry(
        "gui_launch"@,
        "Launch a macOS app and make it the current target. Provide exactly one of app (application name), path (filesystem path to a .app), or bundle_id."@,
        object_schema(seq![
            ("app"@, string_prop("Application name, e.g. 'Calculator'."@)),
            ("bundle_id"@, string_prop("Bundle identifier, e.g. 'com.apple.calculator'."@)),
            ("path"@, string_prop("Path to an application bundle, e.g. '/Applications/Foo.app'."@)),
        ], Seq::empty()),
    )
}

pub open spec fn view_tool() -> JsonTree {
    tool_entry(
        "gui_view"@,
        "Read the current target's Accessibility tree and return a semantic snapshot: a list of actionable elements with stable refs (e1, e2, …), roles, labels, values and enabled/focused state, plus a tree signature."@,
        object_schema(Seq::empty(), Seq::empty()),
    )
}

pub open spec fn click_tool() -> JsonTree {
    tool_entry(
        "gui_click"@,
        "Press/activate the element with the given ref (coordinate-free AXPress). Reports whether the AX tree signature changed afterwards."@,
        object_schema(seq![("ref"@, string_prop("Element ref from gui_view, e.g. 'e3'."@))], seq![JsonTree::Str("ref"@)]),
    )
}

pub open spec fn type_tool() -> JsonTree {
    tool_entry(
        "gui_type"@,
        "Type text into the element with the given ref by setting its AXValue (coordinate-free)."@,
        object_schema(seq![
            ("ref"@, string_prop("Element ref from gui_view, e.g. 'e2'."@)),
            ("text"@, string_prop("Text to set as the element's value."@)),
        ], seq![JsonTree::Str("ref"@), JsonTree::Str("text"@)]),
    )
}

pub open spec fn key_tool() -> JsonTree {
    tool_entry(
        "gui_key"@,
        "Send a keyboard combo to the current target, e.g. 'cmd+s', 'enter', 'cmd+shift+n'."@,
        object_schema(seq![("combo"@, string_prop("Key combo, modifiers joined with '+'."@))], seq![JsonTree::Str("combo"@)]),
    )
}

pub open spec fn screenshot_tool() -> JsonTree {
    tool_entry(
        "gui_screenshot"@,
        "Capture the screen as a PNG (vision fallback) and return the file path."@,
        object_schema(Seq::empty(), Seq::empty()),
    )
}

pub open spec fn verify_tool() -> JsonTree {
    tool_entry(
        "gui_verify"@,
        "Check whether some expected text is present anywhere in the current target's AX tree (roles/titles/values). Returns pass/fail."@,
        object_schema(seq![("expect"@, string_prop("Substring expected to be visible in the UI."@))], seq![JsonTree::Str("expect"@)]),
    )
}

pub open spec fn contract_tool() -> JsonTree {
    tool_entry(
        "get_test_contract"@,
        "Read biscuits/test_contract.json from the current working directory and return it. Defines the test cases this driver should execute."@,
        object_schema(Seq::empty(), Seq::empty()),
    )
}

pub open spec fn report_tool() -> JsonTree {
    tool_entry(
        "report_result"@,
        "Record a test result back into biscuits/test_contract.json: id, pass (bool) and an optional note."@,
        object_schema(seq![
            ("id"@, string_prop("Test case id from get_test_contract."@)),
            ("note"@, string_prop("Optional explanatory note."@)),
            ("pass"@, JsonTree::Object(seq![("description"@, JsonTree::Str("Whether the case passed."@)), ("type"@, JsonTree::Str("boolean"@))])),
        ], seq![JsonTree::Str("id"@), JsonTree::Str("pass"@)]),
    )
}

/// The advertised tools, in order.
pub open spec fn tool_definitions_spec() -> JsonTree {
    JsonTree::Array(seq![
        launch_tool(),
        view_tool(),
        click_tool(),
        type_tool(),
        key_tool(),
        screenshot_tool(),
        verify_tool(),
        contract_tool(),
        report_tool(),
    ])
}

fn string_prop_json(description: &str) -> (r: Json)
    ensures
        r@ == string_prop(description@),
{
    Json::Object(members2("description", json_str(description), "type", json_str("string")))
}

fn schema_json(props: Vec<(String, Json)>, required: Vec<Json>) -> (r: Json)
    ensures
        r@ == object_schema(members_of(props@), trees_of(required@)),
{
    proof {
        lemma_trees_of(required@);
    }
    if required.len() == 0 {
        Json::Object(members3(
            "additionalProperties", Json::Bool(false),
            "properties", Json::Object(props),
            "type", json_str("object"),
        ))
    } else {
        Json::Object(members4(
            "additionalProperties", Json::Bool(false),
            "properties", Json::Object(props),
            "required", Json::Array(required),
            "type", json_str("object"),
        ))
    }
}

fn tool_json(name: &str, description: &str, schema: Json) -> (r: Json)
    ensures
        r@ == tool_entry(name@, description@, schema@),
{
    Json::Object(members3("description", json_str(description), "inputSchema", schema, "name", json_str(name)))
}

fn strings1(a: &str) -> (r: Vec<Json>)
    ensures
        trees_of(r@) == seq![JsonTree::Str(a@)],
{
    let r = vec![json_str(a)];
    proof {
        lemma_trees_of(r@);
        assert(trees_of(r@) =~= seq![JsonTree::Str(a@)]);
    }
    r
}

fn strings2(a: &str, b: &str) -> (r: Vec<Json>)
    ensures
        trees_of(r@) == seq![JsonTree::Str(a@), JsonTree::Str(b@)],
{
    let r = vec![json_str(a), json_str(b)];
    proof {
        lemma_trees_of(r@);
        assert(trees_of(r@) =~= seq![JsonTree::Str(a@), JsonTree::Str(b@)]);
    }
    r
}

fn no_args_tool(name: &str, description: &str) -> (r: Json)
    ensures
        r@ == tool_entry(name@, description@, object_schema(Seq::empty(), Seq::empty())),
{
    let props: Vec<(String, Json)> = Vec::new();
    let required: Vec<Json> = Vec::new();
    assert(members_of(props@) =~= Seq::empty());
    assert(trees_of(required@) =~= Seq::empty());
    tool_json(name, description, schema_json(props, required))
}

fn launch_tool_json() -> (r: Json)
    ensures
        r@ == launch_tool(),
{
    let props = members3(
        "app", string_prop_json("Application name, e.g. 'Calculator'."),
        "bundle_id", string_prop_json("Bundle identifier, e.g. 'com.apple.calculator'."),
        "path", string_prop_json("Path to an application bundle, e.g. '/Applications/Foo.app'."),
    );
    let required: Vec<Json> = Vec::new();
    assert(trees_of(required@) =~= Seq::empty());
    tool_json(
        "gui_launch",
        "Launch a macOS app and make it the current target. Provide exactly one of app (application name), path (filesystem path to a .app), or bundle_id.",
        schema_json(props, required),
    )
}

fn click_tool_json() -> (r: Json)
    ensures
        r@ == click_tool(),
{
    let props = members1("ref", string_prop_json("Element ref from gui_view, e.g. 'e3'."));
    tool_json(
        "gui_click",
        "Press/activate the element with the given ref (coordinate-free AXPress). Reports whether the AX tree signature changed afterwards.",
        schema_json(props, strings1("ref")),
    )
}

fn type_tool_json() -> (r: Json)
    ensures
        r@ == type_tool(),
{
    let props = members2(
        "ref", string_prop_json("Element ref from gui_view, e.g. 'e2'."),
        "text", string_prop_json("Text to set as the element's value."),
    );
    tool_json(
        "gui_type",
        "Type text into the element with the given ref by setting its AXValue (coordinate-free).",
        schema_json(props, strings2("ref", "text")),
    )
}

fn key_tool_json() -> (r: Json)
    ensures
        r@ == key_tool(),
{
    let props = members1("combo", string_prop_json("Key combo, modifiers joined with '+'."));
    tool_json(
        "gui_key",
        "Send a keyboard combo to the current target, e.g. 'cmd+s', 'enter', 'cmd+shift+n'.",
        schema_json(props, strings1("combo")),
    )
}

fn verify_tool_json() -> (r: Json)
    ensures
        r@ == verify_tool(),
{
    let props = members1("expect", string_prop_json("Substring expected to be visible in the UI."));
    tool_json(
        "gui_verify",
        "Check whether some expected text is present anywhere in the current target's AX tree (roles/titles/values). Returns pass/fail.",
        schema_json(props, strings1("expect")),
    )
}

fn report_tool_json() -> (r: Json)
    ensures
        r@ == report_tool(),
{
    let pass = Json::Object(members2("description", json_str("Whether the case passed."), "type", json_str("boolean")));
    let props = members3(
        "id", string_prop_json("Test case id from get_test_contract."),
        "note", string_prop_json("Optional explanatory note."),
        "pass", pass,
    );
    tool_json(
        "report_result",
        "Record a test result back into biscuits/test_contract.json: id, pass (bool) and an optional note.",
        schema_json(props, strings2("id", "pass")),
    )
}

/// The advertised tool list with the JSON-Schema of each tool's input.
pub fn tool_definitions() -> (r: Json)
    ensures
        r@ == tool_definitions_spec(),
{
    let mut v: Vec<Json> = Vec::new();
    v.push(launch_tool_json());
    v.push(no_args_tool(
        "gui_view",
        "Read the current target's Accessibility tree and return a semantic snapshot: a list of actionable elements with stable refs (e1, e2, …), roles, labels, values and enabled/focused state, plus a tree signature.",
    ));
    v.push(click_tool_json());
    v.push(type_tool_json());
    v.push(key_tool_json());
    v.push(no_args_tool("gui_screenshot", "Capture the screen as a PNG (vision fallback) and return the file path."));
    v.push(verify_tool_json());
    v.push(no_args_tool(
        "get_test_contract",
        "Read biscuits/test_contract.json from the current working directory and return it. Defines the test cases this driver should execute.",
    ));
    v.push(report_tool_json());
    proof {
        lemma_trees_of(v@);
        assert(trees_of(v@) =~= seq![
            launch_tool(),
            view_tool(),
            click_tool(),
            type_tool(),
            key_tool(),
            screenshot_tool(),
            verify_tool(),
            contract_tool(),
            report_tool(),
        ]);
    }
    Json::Array(v)
}

// ---------------------------------------------------------------------------
// Tool calls
// ---------------------------------------------------------------------------

/// The trimmed string member `key`, when it is one and not blank.
pub open spec fn nonblank(args: JsonTree, key: Seq<char>) -> Option<Seq<char>> {
    match str_member(args, key) {
        Some(s) => if trim(s).len() > 0 { Some(trim(s)) } else { None },
        None => None,
    }
}

/// Whether `args` name no launch target at all.
pub open spec fn no_launch_target(args: JsonTree) -> bool {
    &&& nonblank(args, "bundle_id"@) is None
    &&& nonblank(args, "path"@) is None
    &&& nonblank(args, "app"@) is None
}

/// `t` is the target `args` name: a bundle id first, then a path, then an
/// app name.
pub open spec fn launch_target_of(args: JsonTree, t: LaunchTarget) -> bool {
    match t {
        LaunchTarget::BundleId(s) => nonblank(args, "bundle_id"@) == Some(s@),
        LaunchTarget::Path(s) => nonblank(args, "bundle_id"@) is None && nonblank(args, "path"@) == Some(s@),
        LaunchTarget::App(s) => nonblank(args, "bundle_id"@) is None && nonblank(args, "path"@) is None
            && nonblank(args, "app"@) == Some(s@),
    }
}

fn nonblank_arg(args: &Json, key: &str) -> (r: Option<String>)
    ensures
        match r {
            Some(s) => nonblank(args@, key@) == Some(s@),
            None => nonblank(args@, key@) is None,
        },
{
    match get_str(args, key) {
        Some(v) => {
            let t = trim_str(v);
            if t.len() > 0 {
                Some(string_of(t.as_slice()))
            } else {
                None
            }
        },
        None => None,
    }
}

impl LaunchTarget {
    /// The target a `gui_launch` call names; a bundle id wins over a path,
    /// a path over an app name, and blank values do not count.
    pub fn from_args(args: &Json) -> (r: Result<LaunchTarget, String>)
        ensures
            match r {
                Ok(t) => launch_target_of(args@, t),
                Err(e) => no_launch_target(args@) && e@ == "gui_launch requires one of: app, path, bundle_id"@,
            },
    {
        if let Some(id) = nonblank_arg(args, "bundle_id") {
            return Ok(LaunchTarget::BundleId(id));
        }
        if let Some(path) = nonblank_arg(args, "path") {
            return Ok(LaunchTarget::Path(path));
        }
        if let Some(app) = nonblank_arg(args, "app") {
            return Ok(LaunchTarget::App(app));
        }
        Err(String::from_str("gui_launch requires one of: app, path, bundle_id"))
    }
}

/// A tool call with its arguments read.
pub enum GuiCall {
    Launch(LaunchTarget),
    View,
    Click(String),
    Type(String, String),
    Key(String),
    Screenshot,
    Verify(String),
    ReadContract,
    Report(String, bool, String),
}

pub open spec fn missing_arg(key: Seq<char>) -> Seq<char> {
    "missing string arg: "@ + key
}

/// Why a call of tool `name` with `args` is refused before anything runs.
pub open spec fn tool_call_error(name: Seq<char>, args: JsonTree) -> Option<Seq<char>> {
    if name == "gui_verify"@ {
        if str_member(args, "expect"@) is None { Some(missing_arg("expect"@)) } else { None }
    } else if name == "gui_launch"@ {
        if no_launch_target(args) { Some("gui_launch requires one of: app, path, bundle_id"@) } else { None }
    } else if name == "gui_view"@ || name == "gui_screenshot"@ || name == "get_test_contract"@ {
        None
    } else if name == "gui_click"@ {
        if str_member(args, "ref"@) is None { Some(missing_arg("ref"@)) } else { None }
    } else if name == "gui_type"@ {
        if str_member(args, "ref"@) is None {
            Some(missing_arg("ref"@))
        } else if str_member(args, "text"@) is None {
            Some(missing_arg("text"@))
        } else {
            None
        }
    } else if name == "gui_key"@ {
        if str_member(args, "combo"@) is None { Some(missing_arg("combo"@)) } else { None }
    } else if name == "report_result"@ {
        if str_member(args, "id"@) is None {
            Some(missing_arg("id"@))
        } else if bool_member(args, "pass"@) is None {
            Some("report_result requires a boolean 'pass'"@)
        } else {
            None
        }
    } else {
        Some("unknown tool: "@ + name)
    }
}

/// `c` is the call that tool `name` with `args` makes.
pub open spec fn call_of(name: Seq<char>, args: JsonTree, c: GuiCall) -> bool {
    match c {
        GuiCall::Launch(t) => name == "gui_launch"@ && launch_target_of(args, t),
        GuiCall::View => name == "gui_view"@,
        GuiCall::Click(r) => name == "gui_click"@ && str_member(args, "ref"@) == Some(r@),
        GuiCall::Type(r, t) => name == "gui_type"@ && str_member(args, "ref"@) == Some(r@)
            && str_member(args, "text"@) == Some(t@),
        GuiCall::Key(k) => name == "gui_key"@ && str_member(args, "combo"@) == Some(k@),
        GuiCall::Screenshot => name == "gui_screenshot"@,
        GuiCall::Verify(e) => name == "gui_verify"@ && str_member(args, "expect"@) == Some(e@),
        GuiCall::ReadContract => name == "get_test_contract"@,
        GuiCall::Report(id, pass, note) => name == "report_result"@ && str_member(args, "id"@) == Some(id@)
            && bool_member(args, "pass"@) == Some(pass) && note@ == match str_member(args, "note"@) {
                Some(n) => n,
                None => Seq::empty(),
            },
    }
}

fn str_arg<'a>(args: &'a Json, key: &str) -> (r: Result<&'a str, String>)
    ensures
        match r {
            Ok(s) => str_member(args@, key@) == Some(s@),
            Err(e) => str_member(args@, key@) is None && e@ == missing_arg(key@),
        },
{
    match get_str(args, key) {
        Some(s) => Ok(s),
        None => {
            let mut v = chars_of("missing string arg: ");
            extend_str(&mut v, key);
            Err(string_of(v.as_slice()))
        },
    }
}

/// Read the arguments of a call of tool `name`.
pub fn plan_tool_call(name: &str, args: &Json) -> (r: Result<GuiCall, String>)
    ensures
        match r {
            Ok(c) => tool_call_error(name@, args@) is None && call_of(name@, args@, c),
            Err(e) => tool_call_error(name@, args@) == Some(e@),
        },
{
    let c = chars_of(name);
    let x = c.as_slice();
    if chars_eq_str(x, "gui_verify") {
        let e = str_arg(args, "expect")?;
        Ok(GuiCall::Verify(String::from_str(e)))
    } else if chars_eq_str(x, "gui_launch") {
        match LaunchTarget::from_args(args) {
            Ok(t) => Ok(GuiCall::Launch(t)),
            Err(e) => Err(e),
        }
    } else if chars_eq_str(x, "gui_view") {
        Ok(GuiCall::View)
    } else if chars_eq_str(x, "gui_screenshot") {
        Ok(GuiCall::Screenshot)
    } else if chars_eq_str(x, "get_test_contract") {
        Ok(GuiCall::ReadContract)
    } else if chars_eq_str(x, "gui_click") {
        let r = str_arg(args, "ref")?;
        Ok(GuiCall::Click(String::from_str(r)))
    } else if chars_eq_str(x, "gui_type") {
        let r = str_arg(args, "ref")?;
        let t = str_arg(args, "text")?;
        Ok(GuiCall::Type(String::from_str(r), String::from_str(t)))
    } else if chars_eq_str(x, "gui_key") {
        let k = str_arg(args, "combo")?;
        Ok(GuiCall::Key(String::from_str(k)))
    } else if chars_eq_str(x, "report_result") {
        let id = str_arg(args, "id")?;
        let pass = match args.get("pass") {
            Some(v) => v.as_bool(),
            None => None,
        };
        let pass = match pass {
            Some(p) => p,
            None => return Err(String::from_str("report_result requires a boolean 'pass'")),
        };
        let note = match get_str(args, "note") {
            Some(n) => String::from_str(n),
            None => String::new(),
        };
        Ok(GuiCall::Report(String::from_str(id), pass, note))
    } else {
        let mut v = chars_of("unknown tool: ");
        extend_str(&mut v, name);
        Err(string_of(v.as_slice()))
    }
}

/// What `format!("{:?}", s)` writes for a string: `s` in double quotes with
/// the escapes of `char::escape_debug`.
pub uninterp spec fn str_debug(s: Seq<char>) -> Seq<char>;

/// `format!("{:?}", s)` for a string.
#[verifier::external_body]
fn debug_quoted(s: &str) -> (r: String)
    ensures
        r@ == str_debug(s@),
{
    format!("{:?}", s)
}

pub open spec fn verify_text_spec(found: bool, expect: Seq<char>) -> Seq<char> {
    "verify: "@ + (if found { "PASS"@ } else { "FAIL"@ }) + " (expected: "@ + str_debug(expect) + ")"@
}

/// The answer of `gui_verify`.
pub fn verify_text(found: bool, expect: &str) -> (r: String)
    ensures
        r@ == verify_text_spec(found, expect@),
{
    let mut v = chars_of("verify: ");
    if found {
        extend_str(&mut v, "PASS");
    } else {
        extend_str(&mut v, "FAIL");
    }
    extend_str(&mut v, " (expected: ");
    let d = debug_quoted(expect);
    extend_str(&mut v, d.as_str());
    extend_str(&mut v, ")");
    string_of(v.as_slice())
}

/// `ev` is the driver call that `c` makes: the same operation with the same
/// arguments (`gui_verify` looks at a fresh view).
pub open spec fn event_of(c: GuiCall, ev: GuiEvent) -> bool {
    match c {
        GuiCall::Launch(t) => ev matches GuiEvent::Launch(t2, _) && t2 == t,
        GuiCall::View => ev is View,
        GuiCall::Click(r) => ev matches GuiEvent::Click(r2, _) && r2 == r@,
        GuiCall::Type(r, t) => ev matches GuiEvent::Type(r2, t2, _) && r2 == r@ && t2 == t@,
        GuiCall::Key(k) => ev matches GuiEvent::Key(k2, _) && k2 == k@,
        GuiCall::Screenshot => ev is Screenshot,
        GuiCall::Verify(_) => ev is View,
        GuiCall::ReadContract => ev is ReadContract,
        GuiCall::Report(id, pass, note) => ev matches GuiEvent::Report(i2, p2, n2, _) && i2 == id@ && p2 == pass
            && n2 == note@,
    }
}

/// What a call answers once the driver has answered `ev`: the driver's own
/// answer, the text of the view it gave, or the verdict of `gui_verify` on
/// it; a failed view fails the call.
pub open spec fn call_result(c: GuiCall, ev: GuiEvent) -> Result<Seq<char>, Seq<char>> {
    match ev {
        GuiEvent::View(Err(e)) => Err(e),
        GuiEvent::View(Ok(s)) => match c {
            GuiCall::Verify(e) => Ok(verify_text_spec(snapshot_has(s, e@), e@)),
            _ => Ok(snapshot_text_spec(s)),
        },
        GuiEvent::Launch(_, r) => r,
        GuiEvent::Click(_, r) => r,
        GuiEvent::Type(_, _, r) => r,
        GuiEvent::Key(_, r) => r,
        GuiEvent::Screenshot(r) => r,
        GuiEvent::ReadContract(r) => r,
        GuiEvent::Report(_, _, _, r) => r,
    }
}

/// A tool call with `name` and `args` took the driver's record from
/// `before` to `after` and answered `r`: a refused call makes no driver call
/// and fails with the reason; any other makes exactly the one driver call
/// its planned call asks for and answers from what the driver gave.
pub open spec fn tool_step(name: Seq<char>, args: JsonTree, before: Seq<GuiEvent>, after: Seq<GuiEvent>, r: Result<Seq<char>, Seq<char>>) -> bool {
    match tool_call_error(name, args) {
        Some(e) => r == Err::<Seq<char>, Seq<char>>(e) && after == before,
        None => exists|c: GuiCall| #[trigger] call_of(name, args, c) && after.len() == before.len() + 1
            && after.drop_last() == before && event_of(c, after.last()) && r == call_result(c, after.last()),
    }
}

/// Carry out a tool call through `actions`: refusals for missing or unknown
/// arguments are decided here; otherwise the planned driver call is made and
/// its answer reported (`gui_view` and `gui_verify` answer from the snapshot
/// the driver gives).
pub fn call_tool<A: GuiActions>(name: &str, args: &Json, actions: &mut A) -> (r: Result<String, String>)
    ensures
        tool_step(name@, args@, old(actions).events(), final(actions).events(), res_view(r)),
{
    let ghost before = actions.events();
    let call = match plan_tool_call(name, args) {
        Ok(c) => c,
        Err(err) => return Err(err),
    };
    let ghost gc = call;
    let r = match call {
        GuiCall::Launch(t) => actions.launch(t),
        GuiCall::View => {
            let v = actions.view();
            match v {
                Ok(snapshot) => Ok(snapshot_to_text(&snapshot)),
                Err(err) => Err(err),
            }
        },
        GuiCall::Click(r) => actions.click(r.as_str()),
        GuiCall::Type(r, t) => actions.type_text(r.as_str(), t.as_str()),
        GuiCall::Key(k) => actions.key(k.as_str()),
        GuiCall::Screenshot => actions.screenshot(),
        GuiCall::Verify(e) => {
            let v = actions.view();
            match v {
                Ok(snapshot) => {
                    let found = snapshot_contains(&snapshot, e.as_str());
                    Ok(verify_text(found, e.as_str()))
                },
                Err(err) => Err(err),
            }
        },
        GuiCall::ReadContract => actions.read_test_contract(),
        GuiCall::Report(id, pass, note) => actions.record_result(id.as_str(), pass, note.as_str()),
    };
    proof {
        assert(actions.events().drop_last() =~= before);
        assert(call_of(name@, args@, gc));
        assert(event_of(gc, actions.events().last()));
        assert(res_view(r) == call_result(gc, actions.events().last()));
    }
    r
}

// ---------------------------------------------------------------------------
// JSON-RPC routing
// ---------------------------------------------------------------------------

/// The MCP protocol version the server advertises.
pub const PROTOCOL_VERSION: &'static str = "2024-11-05";
/// The name the server gives itself.
pub const SERVER_NAME: &'static str = "biscuit-gui-mcp";
/// The version the server reports.
pub const SERVER_VERSION: &'static str = "0.1.0";

/// The outcome of routing one JSON-RPC message.
pub enum Routed {
    /// A response object to write back to the client.
    Reply(Json),
    /// A notification: nothing is written.
    Silent,
}

pub open spec fn empty_object() -> JsonTree {
    JsonTree::Object(Seq::empty())
}

/// A JSON-RPC result response.
pub open spec fn success_tree(id: JsonTree, result: JsonTree) -> JsonTree {
    JsonTree::Object(seq![("id"@, id), ("jsonrpc"@, JsonTree::Str("2.0"@)), ("result"@, result)])
}

/// A JSON-RPC error response; `code` is the number's text.
pub open spec fn error_tree(id: JsonTree, code: Seq<char>, message: Seq<char>) -> JsonTree {
    JsonTree::Object(seq![
        ("error"@, JsonTree::Object(seq![("code"@, JsonTree::Number(None, code)), ("message"@, JsonTree::Str(message))])),
        ("id"@, id),
        ("jsonrpc"@, JsonTree::Str("2.0"@)),
    ])
}

/// The MCP result of a tool call: one text item and the error flag.
pub open spec fn content_tree(text: Seq<char>, is_error: bool) -> JsonTree {
    JsonTree::Object(seq![
        ("content"@, JsonTree::Array(seq![JsonTree::Object(seq![("text"@, JsonTree::Str(text)), ("type"@, JsonTree::Str("text"@))])])),
        ("isError"@, JsonTree::Bool(is_error)),
    ])
}

/// The result of `initialize`.
pub open spec fn initialize_tree() -> JsonTree {
    JsonTree::Object(seq![
        ("capabilities"@, JsonTree::Object(seq![("tools"@, empty_object())])),
        ("protocolVersion"@, JsonTree::Str(PROTOCOL_VERSION@)),
        ("serverInfo"@, JsonTree::Object(seq![("name"@, JsonTree::Str(SERVER_NAME@)), ("version"@, JsonTree::Str(SERVER_VERSION@))])),
    ])
}

fn success(id: Json, result: Json) -> (r: Json)
    ensures
        r@ == success_tree(id@, result@),
{
    Json::Object(members3("id", id, "jsonrpc", json_str("2.0"), "result", result))
}

fn content(text: String, is_error: bool) -> (r: Json)
    ensures
        r@ == content_tree(text@, is_error),
{
    let item = Json::Object(members2("text", Json::Str(text), "type", json_str("text")));
    let items = vec![item];
    proof {
        lemma_trees_of(items@);
        assert(trees_of(items@) =~= seq![item@]);
    }
    Json::Object(members2("content", Json::Array(items), "isError", Json::Bool(is_error)))
}

fn empty_json_object() -> (r: Json)
    ensures
        r@ == empty_object(),
{
    let v: Vec<(String, Json)> = Vec::new();
    assert(members_of(v@) =~= Seq::empty());
    Json::Object(v)
}

fn initialize_result() -> (r: Json)
    ensures
        r@ == initialize_tree(),
{
    Json::Object(members3(
        "capabilities", Json::Object(members1("tools", empty_json_object())),
        "protocolVersion", json_str(PROTOCOL_VERSION),
        "serverInfo", Json::Object(members2("name", json_str(SERVER_NAME), "version", json_str(SERVER_VERSION))),
    ))
}

/// What `handle_tools_call` reads from a request: the tool's name and its
/// arguments (`""` and `{}` when absent).
pub open spec fn call_params(request: JsonTree) -> (Seq<char>, JsonTree) {
    let params = match get(request, "params"@) {
        Some(p) => p,
        None => empty_object(),
    };
    let name = match str_member(params, "name"@) {
        Some(n) => n,
        None => Seq::empty(),
    };
    let args = match get(params, "arguments"@) {
        Some(a) => a,
        None => empty_object(),
    };
    (name, args)
}

/// The result item of a finished call: the text, or the failure after
/// `error: `.
pub open spec fn call_outcome(text: Seq<char>, failed: bool) -> JsonTree {
    if failed {
        content_tree("error: "@ + text, true)
    } else {
        content_tree(text, false)
    }
}

/// The result item of a call's answer.
pub open spec fn outcome_of(r: Result<Seq<char>, Seq<char>>) -> JsonTree {
    match r {
        Ok(t) => call_outcome(t, false),
        Err(e) => call_outcome(e, true),
    }
}

/// `result` answers a `tools/call` request that took the driver's record
/// from `before` to `after`: the tool step the request names (a refused
/// call is reported as an error item with the reason and calls nothing),
/// its answer as a text item, or its failure after `error: `.
pub open spec fn tools_call_answer(request: JsonTree, result: JsonTree, before: Seq<GuiEvent>, after: Seq<GuiEvent>) -> bool {
    let (name, args) = call_params(request);
    exists|r: Result<Seq<char>, Seq<char>>| #[trigger] tool_step(name, args, before, after, r) && result == outcome_of(r)
}

/// `reply` (none for no reply) answers the JSON-RPC `request`, which took
/// the driver's record from `before` to `after`: only `tools/call` calls the
/// driver.
pub open spec fn answers_request(request: JsonTree, reply: Option<JsonTree>, before: Seq<GuiEvent>, after: Seq<GuiEvent>) -> bool {
    let method = match str_member(request, "method"@) {
        Some(m) => m,
        None => Seq::empty(),
    };
    match get(request, "id"@) {
        None => reply is None && after == before,
        Some(id) => match reply {
            None => false,
            Some(v) => if method == "initialize"@ {
                after == before && v == success_tree(id, initialize_tree())
            } else if method == "tools/list"@ {
                after == before && v == success_tree(id, JsonTree::Object(seq![("tools"@, tool_definitions_spec())]))
            } else if method == "tools/call"@ {
                exists|res: JsonTree| v == success_tree(id, res) && #[trigger] tools_call_answer(request, res, before, after)
            } else if method == "ping"@ {
                after == before && v == success_tree(id, empty_object())
            } else {
                after == before && v == error_tree(id, "-32601"@, "method not found: "@ + method)
            },
        },
    }
}

pub open spec fn routed_view(r: Routed) -> Option<JsonTree> {
    match r {
        Routed::Reply(v) => Some(v@),
        Routed::Silent => None,
    }
}

fn handle_tools_call<A: GuiActions>(id: Json, request: &Json, actions: &mut A) -> (r: Json)
    ensures
        exists|res: JsonTree| r@ == success_tree(id@, res) && #[trigger] tools_call_answer(request@, res, old(actions).events(), final(actions).events()),
{
    let empty = empty_json_object();
    let params = match request.get("params") {
        Some(p) => p,
        None => &empty,
    };
    let name = match get_str(params, "name") {
        Some(n) => n,
        None => "",
    };
    proof {
        reveal_strlit("");
        assert(name@ =~= match str_member(params@, "name"@) {
            Some(n) => n,
            None => Seq::<char>::empty(),
        });
    }
    let empty_args = empty_json_object();
    let args = match params.get("arguments") {
        Some(a) => a,
        None => &empty_args,
    };
    assert(call_params(request@) == (name@, args@));
    let ghost before = actions.events();
    let out = call_tool(name, args, actions);
    let ghost rr = res_view(out);
    let res = match out {
        Ok(text) => {
            let c = content(text, false);
            assert(c@ == call_outcome(text@, false));
            c
        },
        Err(err) => {
            let mut v = chars_of("error: ");
            extend_str(&mut v, err.as_str());
            let c = content(string_of(v.as_slice()), true);
            assert(c@ == call_outcome(err@, true));
            c
        },
    };
    let ghost rv = res@;
    assert(tool_step(name@, args@, before, actions.events(), rr) && rv == outcome_of(rr));
    let ghost cp = call_params(request@);
    assert(cp.0 == name@ && cp.1 == args@);
    assert(tool_step(cp.0, cp.1, before, actions.events(), rr) && rv == outcome_of(rr));
    assert(tools_call_answer(request@, rv, before, actions.events()));
    success(id, res)
}

/// Route one JSON-RPC request to its response, using `actions` for the
/// tools that act. A request without an id is a notification and gets no
/// reply; an unknown method gets the JSON-RPC "method not found" error.
pub fn dispatch_request<A: GuiActions>(request: &Json, actions: &mut A) -> (r: Routed)
    ensures
        answers_request(request@, routed_view(r), old(actions).events(), final(actions).events()),
{
    let method = match get_str(request, "method") {
        Some(m) => m,
        None => "",
    };
    proof {
        reveal_strlit("");
        assert(method@ =~= match str_member(request@, "method"@) {
            Some(m) => m,
            None => Seq::<char>::empty(),
        });
    }
    let id = match request.get("id") {
        Some(i) => i.copy(),
        None => return Routed::Silent,
    };
    let m = chars_of(method);
    let x = m.as_slice();
    if chars_eq_str(x, "initialize") {
        Routed::Reply(success(id, initialize_result()))
    } else if chars_eq_str(x, "tools/list") {
        Routed::Reply(success(id, Json::Object(members1("tools", tool_definitions()))))
    } else if chars_eq_str(x, "tools/call") {
        let ghost idv = id@;
        let ghost before = actions.events();
        let reply = handle_tools_call(id, request, actions);
        proof {
            let res = choose|res: JsonTree| reply@ == success_tree(idv, res) && tools_call_answer(request@, res, before, actions.events());
            assert(reply@ == success_tree(idv, res) && tools_call_answer(request@, res, before, actions.events()));
        }
        Routed::Reply(reply)
    } else if chars_eq_str(x, "ping") {
        Routed::Reply(success(id, empty_json_object()))
    } else {
        let code = Json::Number(None, String::from_str("-32601"));
        let mut v = chars_of("method not found: ");
        extend_str(&mut v, method);
        let err = Json::Object(members2("code", code, "message", Json::Str(string_of(v.as_slice()))));
        Routed::Reply(Json::Object(members3("error", err, "id", id, "jsonrpc", json_str("2.0"))))
    }
}

/// What the server writes for one line of input, which took the driver's
/// record from `before` to `after`: nothing for a blank line, a line that is
/// not JSON, or a notification; otherwise the compact text of the response.
pub open spec fn line_answer(line: Seq<char>, out: Option<Seq<char>>, before: Seq<GuiEvent>, after: Seq<GuiEvent>) -> bool {
    let t = trim(line);
    if t.len() == 0 {
        out is None && after == before
    } else {
        match json_parse(t) {
            Err(_) => out is None && after == before,
            Ok(request) => match out {
                None => answers_request(request, None, before, after),
                Some(s) => exists|v: JsonTree| #[trigger] answers_request(request, Some(v), before, after) && s == json_compact(v),
            },
        }
    }
}

/// Handle one line of the newline-delimited JSON-RPC stream.
pub fn handle_line<A: GuiActions>(line: &str, actions: &mut A) -> (r: Option<String>)
    ensures
        line_answer(line@, match r { Some(s) => Some(s@), None => None }, old(actions).events(), final(actions).events()),
{
    let t = trim_str(line);
    if t.len() == 0 {
        return None;
    }
    let ts = string_of(t.as_slice());
    let request = match parse_json(ts.as_str()) {
        Ok(v) => v,
        Err(_) => return None,
    };
    let ghost before = actions.events();
    match dispatch_request(&request, actions) {
        Routed::Reply(v) => {
            let s = json_text(&v);
            assert(answers_request(request@, Some(v@), before, actions.events()) && s@ == json_compact(v@));
            Some(s)
        },
        Routed::Silent => None,
    }
}

} // verus!
