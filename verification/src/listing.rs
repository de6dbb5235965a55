//! The tree of categories and entries, as it is shown: hidden names left out,
//! the extension of the ciphertext files taken off, every level in the order of
//! the names.

use crate::models::PassEntry;
use crate::text::{chars_of, matches_at, push_range, same_text};
use vstd::prelude::*;

verus! {

/// The extension of the files that hold ciphertext.
pub const CIPHERTEXT_EXT: &'static str = ".gpg";

/// What a directory holds under one name, as it was read from the disk. The
/// children are those of a directory, in the order in which the disk gave them.
#[derive(Debug, PartialEq, Eq)]
pub struct DirEntry {
    pub file_name: String,
    pub is_dir: bool,
    pub children: Vec<DirEntry>,
}

/// A node of the tree: a category with its children, or an entry.
#[derive(Debug, PartialEq, Eq)]
pub struct TreeNode {
    pub name: String,
    pub path: String,
    pub is_dir: bool,
    pub children: Option<Vec<TreeNode>>,
}

/// The mathematical content of a `TreeNode`.
pub struct NodeView {
    pub name: Seq<char>,
    pub path: Seq<char>,
    pub is_dir: bool,
    pub children: Option<Seq<NodeView>>,
}

/// The content of a node.
pub open spec fn node_view(n: TreeNode) -> NodeView
    decreases n,
{
    NodeView {
        name: n.name@,
        path: n.path@,
        is_dir: n.is_dir,
        children: match n.children {
            Some(c) => Some(node_views(c@)),
            None => None,
        },
    }
}

/// The contents of a sequence of nodes.
pub open spec fn node_views(s: Seq<TreeNode>) -> Seq<NodeView>
    decreases s,
{
    if s.len() == 0 {
        Seq::empty()
    } else {
        node_views(s.drop_last()).push(node_view(s.last()))
    }
}

impl View for TreeNode {
    type V = NodeView;

    open spec fn view(&self) -> NodeView {
        node_view(*self)
    }
}

/// The names that the tree does not show: version-control metadata, the
/// identity reference, and the placeholder of an empty category.
pub open spec fn is_hidden(name: Seq<char>) -> bool {
    name == ".git"@ || name == ".gpg-id"@ || name == ".gitkeep"@
}

/// The name of a file without the ciphertext extension at its end.
pub open spec fn logical_name(file_name: Seq<char>) -> Seq<char> {
    if CIPHERTEXT_EXT@.is_suffix_of(file_name) {
        file_name.take(file_name.len() - CIPHERTEXT_EXT@.len())
    } else {
        file_name
    }
}

/// The path of `name` in the category at `current`; the root has the empty path.
pub open spec fn child_path(current: Seq<char>, name: Seq<char>) -> Seq<char> {
    if current.len() == 0 {
        name
    } else {
        current + "/"@ + name
    }
}

/// Whether `a` comes before `b`, or is `b`, in the order of the tree: character
/// by character in the order of the code points, a text before every longer
/// text that begins with it.
pub open spec fn precedes(a: Seq<char>, b: Seq<char>) -> bool
    decreases a.len(),
{
    if a.len() == 0 {
        true
    } else if b.len() == 0 {
        false
    } else if a[0] != b[0] {
        (a[0] as int) < (b[0] as int)
    } else {
        precedes(a.drop_first(), b.drop_first())
    }
}

/// `s` with `x` put in behind every node whose name precedes its own.
pub open spec fn with_node(s: Seq<NodeView>, x: NodeView) -> Seq<NodeView>
    decreases s.len(),
{
    if s.len() == 0 {
        seq![x]
    } else if precedes(s[0].name, x.name) {
        seq![s[0]] + with_node(s.drop_first(), x)
    } else {
        seq![x] + s
    }
}

/// The node for what the category at `current` holds under one name.
pub open spec fn node_for(current: Seq<char>, e: DirEntry) -> NodeView
    decreases e,
{
    if e.is_dir {
        NodeView {
            name: e.file_name@,
            path: child_path(current, e.file_name@),
            is_dir: true,
            children: Some(listing(child_path(current, e.file_name@), e.children@)),
        }
    } else {
        NodeView {
            name: logical_name(e.file_name@),
            path: child_path(current, logical_name(e.file_name@)),
            is_dir: false,
            children: None,
        }
    }
}

/// The nodes of the category at `current`, which holds `entries`.
pub open spec fn listing(current: Seq<char>, entries: Seq<DirEntry>) -> Seq<NodeView>
    decreases entries,
{
    if entries.len() == 0 {
        Seq::empty()
    } else {
        let rest = listing(current, entries.drop_last());
        let e = entries.last();
        if is_hidden(e.file_name@) {
            rest
        } else {
            with_node(rest, node_for(current, e))
        }
    }
}

/// The names of one category and whether each is a category itself, in the
/// order of the entries: every name that begins with a dot is left out.
pub open spec fn flat_listing(entries: Seq<DirEntry>) -> Seq<(Seq<char>, bool)>
    decreases entries.len(),
{
    if entries.len() == 0 {
        Seq::empty()
    } else {
        let rest = flat_listing(entries.drop_last());
        let e = entries.last();
        if e.file_name@.len() > 0 && e.file_name@[0] == '.' {
            rest
        } else if e.is_dir {
            rest.push((e.file_name@, true))
        } else {
            rest.push((logical_name(e.file_name@), false))
        }
    }
}

/// The names and kinds of a list of entries.
pub open spec fn pass_entries(v: Seq<PassEntry>) -> Seq<(Seq<char>, bool)> {
    Seq::new(v.len(), |i: int| (v[i].name@, v[i].is_dir))
}

/// The contents of a sequence of nodes, node by node.
pub proof fn lemma_node_views(s: Seq<TreeNode>)
    ensures
        node_views(s).len() == s.len(),
        forall|i: int| 0 <= i < s.len() ==> node_views(s)[i] == node_view(#[trigger] s[i]),
    decreases s.len(),
{
    if s.len() > 0 {
        let front = s.drop_last();
        lemma_node_views(front);
        assert forall|i: int| 0 <= i < s.len() implies node_views(s)[i] == node_view(
            #[trigger] s[i],
        ) by {
            if i < front.len() {
                assert(front[i] == s[i]);
                assert(node_views(s)[i] == node_views(front)[i]);
            }
        }
    }
}

/// Whether a name is hidden.
pub fn hidden(name: &str) -> (r: bool)
    ensures
        r == is_hidden(name@),
{
    same_text(name, ".git") || same_text(name, ".gpg-id") || same_text(name, ".gitkeep")
}

/// Takes the ciphertext extension off the end of a file name.
pub fn strip_extension(file_name: &str) -> (r: String)
    ensures
        r@ == logical_name(file_name@),
{
    let v = chars_of(file_name);
    let ext = chars_of(CIPHERTEXT_EXT);
    let mut r = String::new();
    if ext.len() <= v.len() && matches_at(&v, v.len() - ext.len(), &ext) {
        push_range(&mut r, &v, 0, v.len() - ext.len());
    } else {
        push_range(&mut r, &v, 0, v.len());
        assert(v@.subrange(0, v.len() as int) == v@);
    }
    r
}

/// Builds the path of `name` in the category at `current`.
pub fn join_path(current: &str, name: &str) -> (r: String)
    ensures
        r@ == child_path(current@, name@),
{
    if current.is_empty() {
        String::from_str(name)
    } else {
        let mut r = String::from_str(current);
        r.append("/");
        r.append(name);
        r
    }
}

/// Whether `a` comes before `b`, or is `b`.
pub fn comes_before(a: &str, b: &str) -> (r: bool)
    ensures
        r == precedes(a@, b@),
{
    let x = chars_of(a);
    let y = chars_of(b);
    let mut i: usize = 0;
    assert(x@.skip(0) == x@);
    assert(y@.skip(0) == y@);
    while i < x.len() && i < y.len() && x[i] == y[i]
        invariant
            i <= x.len(),
            i <= y.len(),
            precedes(x@.skip(i as int), y@.skip(i as int)) == precedes(x@, y@),
        decreases x.len() - i,
    {
        assert(x@.skip(i as int).drop_first() == x@.skip(i + 1));
        assert(y@.skip(i as int).drop_first() == y@.skip(i + 1));
        i += 1;
    }
    if i == x.len() {
        true
    } else if i == y.len() {
        false
    } else {
        x[i] < y[i]
    }
}

/// Puts `node` into `nodes` behind every node whose name precedes its own.
pub fn insert_node(nodes: &mut Vec<TreeNode>, node: TreeNode)
    ensures
        node_views(final(nodes)@) == with_node(node_views(old(nodes)@), node@),
{
    let ghost before = node_views(nodes@);
    proof {
        lemma_node_views(nodes@);
    }
    let mut p: usize = 0;
    assert(before.skip(0) == before);
    assert(before.take(0) + with_node(before, node@) == with_node(before, node@));
    while p < nodes.len() && comes_before(nodes[p].name.as_str(), node.name.as_str())
        invariant
            p <= nodes.len(),
            before == node_views(nodes@),
            before.len() == nodes.len(),
            forall|i: int| 0 <= i < nodes.len() ==> before[i] == node_view(#[trigger] nodes@[i]),
            before.take(p as int) + with_node(before.skip(p as int), node@) == with_node(
                before,
                node@,
            ),
        decreases nodes.len() - p,
    {
        proof {
            let rest = before.skip(p as int);
            assert(rest[0] == node_view(nodes@[p as int]));
            assert(rest.drop_first() == before.skip(p + 1));
            assert(before.take(p + 1) == before.take(p as int) + seq![rest[0]]);
            assert(before.take(p as int) + (seq![rest[0]] + with_node(rest.drop_first(), node@))
                == (before.take(p as int) + seq![rest[0]]) + with_node(rest.drop_first(), node@));
        }
        p += 1;
    }
    proof {
        let rest = before.skip(p as int);
        if p < nodes.len() {
            assert(rest[0] == node_view(nodes@[p as int]));
        }
        assert(with_node(rest, node@) == seq![node@] + rest);
        assert(before.take(p as int) + (seq![node@] + rest) == before.insert(p as int, node@));
    }
    let ghost inserted = nodes@.insert(p as int, node);
    nodes.insert(p, node);
    proof {
        lemma_node_views(inserted);
        assert forall|i: int| 0 <= i < inserted.len() implies node_views(inserted)[i]
            == before.insert(p as int, node@)[i] by {
            assert(node_views(inserted)[i] == node_view(inserted[i]));
            if i < p {
                assert(inserted[i] == old(nodes)@[i]);
            } else if i > p {
                assert(inserted[i] == old(nodes)@[i - 1]);
            }
        }
        assert(node_views(inserted) =~= before.insert(p as int, node@));
    }
}

/// The nodes of the category at `current_path`, which holds `entries`.
pub fn build_tree_recursive(current_path: &str, entries: &Vec<DirEntry>) -> (nodes: Vec<TreeNode>)
    ensures
        node_views(nodes@) == listing(current_path@, entries@),
    decreases entries,
{
    let mut nodes: Vec<TreeNode> = Vec::new();
    let mut i: usize = 0;
    assert(entries@.take(0) == Seq::<DirEntry>::empty());
    while i < entries.len()
        invariant
            i <= entries.len(),
            node_views(nodes@) == listing(current_path@, entries@.take(i as int)),
        decreases entries.len() - i,
    {
        let e = &entries[i];
        proof {
            assert(entries@.take(i + 1).drop_last() == entries@.take(i as int));
            assert(entries@.take(i + 1).last() == entries@[i as int]);
        }
        if !hidden(e.file_name.as_str()) {
            let node = if e.is_dir {
                let path = join_path(current_path, e.file_name.as_str());
                let children = build_tree_recursive(path.as_str(), &e.children);
                TreeNode { name: e.file_name.clone(), path, is_dir: true, children: Some(children) }
            } else {
                let name = strip_extension(e.file_name.as_str());
                let path = join_path(current_path, name.as_str());
                TreeNode { name, path, is_dir: false, children: None }
            };
            assert(node@ == node_for(current_path@, *e));
            insert_node(&mut nodes, node);
        }
        i += 1;
    }
    assert(entries@.take(entries.len() as int) == entries@);
    nodes
}

/// Lists one category without its sub-categories' contents: the names that do
/// not begin with a dot, each with its kind, as the disk gave them.
pub fn list_entries(entries: &Vec<DirEntry>) -> (out: Vec<PassEntry>)
    ensures
        pass_entries(out@) == flat_listing(entries@),
{
    let mut out: Vec<PassEntry> = Vec::new();
    let mut i: usize = 0;
    assert(entries@.take(0) == Seq::<DirEntry>::empty());
    assert(pass_entries(out@) =~= Seq::<(Seq<char>, bool)>::empty());
    while i < entries.len()
        invariant
            i <= entries.len(),
            pass_entries(out@) == flat_listing(entries@.take(i as int)),
        decreases entries.len() - i,
    {
        let e = &entries[i];
        let ghost before = pass_entries(out@);
        proof {
            assert(entries@.take(i + 1).drop_last() == entries@.take(i as int));
            assert(entries@.take(i + 1).last() == entries@[i as int]);
        }
        let name = chars_of(e.file_name.as_str());
        if name.len() > 0 && name[0] == '.' {
        } else if e.is_dir {
            out.push(PassEntry { name: e.file_name.clone(), is_dir: true });
            assert(pass_entries(out@) =~= before.push((e.file_name@, true)));
        } else {
            out.push(PassEntry { name: strip_extension(e.file_name.as_str()), is_dir: false });
            assert(pass_entries(out@) =~= before.push((logical_name(e.file_name@), false)));
        }
        i += 1;
    }
    assert(entries@.take(entries.len() as int) == entries@);
    out
}

/// The tree of the store whose root holds `entries`.
pub fn list_tree(entries: &Vec<DirEntry>) -> (nodes: Vec<TreeNode>)
    ensures
        node_views(nodes@) == listing(Seq::empty(), entries@),
{
    proof {
        reveal_strlit("");
    }
    assert(""@ =~= Seq::<char>::empty());
    build_tree_recursive("", entries)
}

/// Whether the nodes stand in the order of their names.
pub open spec fn in_order(s: Seq<NodeView>) -> bool {
    forall|i: int, j: int| 0 <= i < j < s.len() ==> precedes(s[i].name, s[j].name)
}

/// The nodes of the entries that are not hidden, in the order of the entries.
pub open spec fn shown_nodes(current: Seq<char>, entries: Seq<DirEntry>) -> Seq<NodeView>
    decreases entries.len(),
{
    if entries.len() == 0 {
        Seq::empty()
    } else {
        let rest = shown_nodes(current, entries.drop_last());
        let e = entries.last();
        if is_hidden(e.file_name@) {
            rest
        } else {
            rest.push(node_for(current, e))
        }
    }
}

/// The number of nodes at the start of `s` whose names precede that of `x`.
pub open spec fn slot(s: Seq<NodeView>, x: NodeView) -> int
    decreases s.len(),
{
    if s.len() == 0 || !precedes(s[0].name, x.name) {
        0
    } else {
        1 + slot(s.drop_first(), x)
    }
}

/// Of two names, one precedes the other.
pub proof fn lemma_precedes_total(a: Seq<char>, b: Seq<char>)
    ensures
        precedes(a, b) || precedes(b, a),
    decreases a.len(),
{
    if a.len() > 0 && b.len() > 0 && a[0] == b[0] {
        lemma_precedes_total(a.drop_first(), b.drop_first());
    }
}

/// The order of the names is transitive.
pub proof fn lemma_precedes_transitive(a: Seq<char>, b: Seq<char>, c: Seq<char>)
    requires
        precedes(a, b),
        precedes(b, c),
    ensures
        precedes(a, c),
    decreases a.len(),
{
    if a.len() > 0 && b.len() > 0 && c.len() > 0 && a[0] == b[0] && b[0] == c[0] {
        lemma_precedes_transitive(a.drop_first(), b.drop_first(), c.drop_first());
    }
}

/// `with_node` puts the node in at its slot and moves nothing else.
pub proof fn lemma_with_node(s: Seq<NodeView>, x: NodeView)
    ensures
        0 <= slot(s, x) <= s.len(),
        with_node(s, x) == s.insert(slot(s, x), x),
        forall|i: int| 0 <= i < slot(s, x) ==> precedes(s[i].name, x.name),
        slot(s, x) < s.len() ==> !precedes(s[slot(s, x)].name, x.name),
    decreases s.len(),
{
    if s.len() == 0 {
        assert(with_node(s, x) =~= s.insert(0, x));
    } else if !precedes(s[0].name, x.name) {
        assert(with_node(s, x) =~= s.insert(0, x));
    } else {
        let rest = s.drop_first();
        lemma_with_node(rest, x);
        assert(with_node(s, x) =~= s.insert(slot(s, x), x));
        assert forall|i: int| 0 <= i < slot(s, x) implies precedes(s[i].name, x.name) by {
            if i > 0 {
                assert(s[i] == rest[i - 1]);
            }
        }
        if slot(s, x) < s.len() {
            assert(s[slot(s, x)] == rest[slot(rest, x)]);
        }
    }
}

/// Nodes in order stay in order when one more is put in.
pub proof fn lemma_with_node_in_order(s: Seq<NodeView>, x: NodeView)
    requires
        in_order(s),
    ensures
        in_order(with_node(s, x)),
{
    lemma_with_node(s, x);
    let p = slot(s, x);
    let r = s.insert(p, x);
    assert forall|i: int, j: int| 0 <= i < j < r.len() implies precedes(r[i].name, r[j].name) by {
        if j < p {
        } else if j == p {
        } else if i == p {
            lemma_precedes_total(s[p].name, x.name);
            if j - 1 > p {
                lemma_precedes_transitive(x.name, s[p].name, s[j - 1].name);
            }
        } else if i < p {
        } else {
        }
    }
}

/// At every level the tree shows its nodes in the order of their names,
/// upper case before lower case, and it shows the entries that are not hidden,
/// each once, and nothing else.
pub proof fn law_listing_sorted(current: Seq<char>, entries: Seq<DirEntry>)
    ensures
        in_order(listing(current, entries)),
        listing(current, entries).to_multiset() == shown_nodes(current, entries).to_multiset(),
        listing(current, entries).len() == shown_nodes(current, entries).len(),
    decreases entries.len(),
{
    broadcast use {vstd::seq_lib::to_multiset_insert, vstd::seq_lib::to_multiset_build};

    if entries.len() > 0 {
        let front = entries.drop_last();
        let e = entries.last();
        law_listing_sorted(current, front);
        if !is_hidden(e.file_name@) {
            let rest = listing(current, front);
            let x = node_for(current, e);
            lemma_with_node_in_order(rest, x);
            lemma_with_node(rest, x);
            assert(rest.insert(slot(rest, x), x).to_multiset() == rest.to_multiset().insert(x));
            assert(shown_nodes(current, front).push(x).to_multiset() == shown_nodes(
                current,
                front,
            ).to_multiset().insert(x));
        }
    }
}

/// A hidden name shows nowhere in a level of the tree, and an entry that is not
/// hidden shows there with the children of its own listing.
pub proof fn law_listing_hides(current: Seq<char>, entries: Seq<DirEntry>, k: int)
    requires
        0 <= k < entries.len(),
    ensures
        !is_hidden(entries[k].file_name@) ==> listing(current, entries).contains(
            node_for(current, entries[k]),
        ),
        forall|n: NodeView| #[trigger]
            listing(current, entries).contains(n) ==> exists|j: int|
                0 <= j < entries.len() && !is_hidden(entries[j].file_name@) && n == node_for(
                    current,
                    #[trigger] entries[j],
                ),
    decreases entries.len(),
{
    let front = entries.drop_last();
    let e = entries.last();
    let rest = listing(current, front);
    let all = listing(current, entries);
    if k < front.len() {
        law_listing_hides(current, front, k);
        assert(front[k] == entries[k]);
    }
    if !is_hidden(e.file_name@) {
        let x = node_for(current, e);
        lemma_with_node(rest, x);
        let p = slot(rest, x);
        assert(all[p] == x);
        if k < front.len() && !is_hidden(entries[k].file_name@) {
            let i = choose|i: int| 0 <= i < rest.len() && rest[i] == node_for(current, entries[k]);
            if i < p {
                assert(all[i] == rest[i]);
            } else {
                assert(all[i + 1] == rest[i]);
            }
        }
    }
    assert forall|n: NodeView| #[trigger] all.contains(n) implies exists|j: int|
        0 <= j < entries.len() && !is_hidden(entries[j].file_name@) && n == node_for(
            current,
            #[trigger] entries[j],
        ) by {
        let i = choose|i: int| 0 <= i < all.len() && all[i] == n;
        if !is_hidden(e.file_name@) && i == slot(rest, node_for(current, e)) {
            assert(n == node_for(current, entries[entries.len() - 1]));
        } else {
            if !is_hidden(e.file_name@) {
                let p = slot(rest, node_for(current, e));
                if i < p {
                    assert(rest[i] == n);
                } else {
                    assert(rest[i - 1] == n);
                }
            }
            assert(rest.contains(n));
            if front.len() > 0 {
                law_listing_hides(current, front, 0);
                let j = choose|j: int|
                    0 <= j < front.len() && !is_hidden(front[j].file_name@) && n == node_for(
                        current,
                        #[trigger] front[j],
                    );
                assert(front[j] == entries[j]);
            }
        }
    }
}

} // verus!
