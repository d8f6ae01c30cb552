//! Ordering and flattening of directory listings into asset lists.

use vstd::prelude::*;

use crate::project::{AssetEntry, AssetKind, extension_kind};
use crate::ordering::{
    as_ints, is_permutation, lemma_insert_by, lemma_stable_order_sorted,
    stable_order, strict_weak_order,
};
use crate::text::{
    chars_lt, chars_of, lemma_seq_lt_total_order, lowercase, replace_char, replace_char_spec, seq_lt,
    str_eq,
};

verus! {

/// One entry of a directory listing, with the listing of its own children
/// when it is a directory that was read.
pub struct DirNode {
    /// File name of the entry.
    pub name: String,
    /// The entry is a directory.
    pub is_dir: bool,
    /// Entries of the directory, in the order the file system listed them.
    pub children: Vec<DirNode>,
}

/// Listing order: directories before files, then by name.
pub open spec fn listed_before(a: DirNode, b: DirNode) -> bool {
    (a.is_dir && !b.is_dir) || (a.is_dir == b.is_dir && seq_lt(a.name@, b.name@))
}

/// The "lists before" relation on indices of `nodes`.
pub open spec fn listing_before(nodes: Seq<DirNode>) -> spec_fn(int, int) -> bool {
    |a: int, b: int| listed_before(nodes[a], nodes[b])
}

/// The indices `0..n` of `nodes` in listing order (a stable sort).
pub open spec fn listing_order(nodes: Seq<DirNode>, n: nat) -> Seq<int> {
    stable_order(n, listing_before(nodes))
}

/// The listing order is a strict weak order on entries.
proof fn lemma_listing_before_weak(nodes: Seq<DirNode>)
    ensures
        strict_weak_order(listing_before(nodes), nodes.len() as int),
{
    let before = listing_before(nodes);
    assert forall|a: int, b: int| 0 <= a < nodes.len() && 0 <= b < nodes.len() && #[trigger] before(a, b) implies !before(b, a) by {
        lemma_seq_lt_total_order(nodes[a].name@, nodes[b].name@, nodes[a].name@);
    }
    assert forall|a: int, b: int, c: int|
        0 <= a < nodes.len() && 0 <= b < nodes.len() && 0 <= c < nodes.len() && #[trigger] before(a, c) implies #[trigger] before(a, b)
            || #[trigger] before(b, c) by {
        let (x, y, z) = (nodes[a].name@, nodes[b].name@, nodes[c].name@);
        lemma_seq_lt_total_order(x, y, z);
        lemma_seq_lt_total_order(y, z, x);
        lemma_seq_lt_total_order(z, x, y);
        lemma_seq_lt_total_order(x, z, y);
        lemma_seq_lt_total_order(y, x, z);
        lemma_seq_lt_total_order(z, y, x);
    }
}

/// A listing puts every entry in exactly once, directories before files,
/// and each of the two groups in name order.
pub proof fn lemma_listing_sorted(nodes: Seq<DirNode>)
    ensures
        is_permutation(listing_order(nodes, nodes.len()), nodes.len() as int),
        sorted_listing(nodes).len() == nodes.len(),
        forall|i: int, j: int| 0 <= i < j < nodes.len() ==> (#[trigger] sorted_listing(nodes)[i]).is_dir
            || !(#[trigger] sorted_listing(nodes)[j]).is_dir,
        forall|i: int, j: int| 0 <= i < j < nodes.len() && (#[trigger] sorted_listing(nodes)[i]).is_dir
            == (#[trigger] sorted_listing(nodes)[j]).is_dir ==> !seq_lt(sorted_listing(nodes)[j].name@, sorted_listing(nodes)[i].name@),
{
    lemma_listing_before_weak(nodes);
    lemma_stable_order_sorted(nodes.len(), listing_before(nodes));
    let o = listing_order(nodes, nodes.len());
    let s = sorted_listing(nodes);
    assert forall|i: int, j: int| 0 <= i < j < nodes.len() implies !listed_before(#[trigger] s[j], #[trigger] s[i]) by {
        assert(s[i] == nodes[o[i]] && s[j] == nodes[o[j]]);
        assert(!listing_before(nodes)(o[j], o[i]));
    }
}

/// `nodes` rearranged into listing order.
pub open spec fn sorted_listing(nodes: Seq<DirNode>) -> Seq<DirNode> {
    listing_order(nodes, nodes.len()).map_values(|i: int| nodes[i])
}


/// `a` lists strictly before `b` (directories first, then by name).
fn node_listed_before(a: &DirNode, a_name: &Vec<char>, b: &DirNode, b_name: &Vec<char>) -> (r: bool)
    requires
        a_name@ == a.name@,
        b_name@ == b.name@,
    ensures
        r == listed_before(*a, *b),
{
    (a.is_dir && !b.is_dir) || (a.is_dir == b.is_dir && chars_lt(a_name, b_name))
}

/// The indices of `nodes` in listing order.
pub fn sort_listing(nodes: &Vec<DirNode>) -> (order: Vec<usize>)
    ensures
        as_ints(order@) == listing_order(nodes@, nodes@.len()),
        forall|k: int| 0 <= k < order@.len() ==> #[trigger] order@[k] < nodes@.len(),
        order@.len() == nodes@.len(),
{
    let mut names: Vec<Vec<char>> = Vec::new();
    for j in 0..nodes.len()
        invariant
            names@.len() == j,
            forall|k: int| 0 <= k < j ==> #[trigger] names@[k]@ == nodes@[k].name@,
    {
        names.push(chars_of(nodes[j].name.as_str()));
    }
    let mut order: Vec<usize> = Vec::new();
    for i in 0..nodes.len()
        invariant
            names@.len() == nodes@.len(),
            forall|k: int| 0 <= k < nodes@.len() ==> #[trigger] names@[k]@ == nodes@[k].name@,
            as_ints(order@) == listing_order(nodes@, i as nat),
            order@.len() == i,
            forall|k: int| 0 <= k < order@.len() ==> #[trigger] order@[k] < i,
    {
        let mut p = order.len();
        while p > 0 && node_listed_before(&nodes[i], &names[i], &nodes[order[p - 1]], &names[order[p - 1]])
            invariant
                names@.len() == nodes@.len(),
                forall|k: int| 0 <= k < nodes@.len() ==> #[trigger] names@[k]@ == nodes@[k].name@,
                i < nodes@.len(),
                order@.len() == i,
                forall|k: int| 0 <= k < order@.len() ==> #[trigger] order@[k] < i,
                p <= order@.len(),
                forall|k: int| p <= k < order@.len() ==> listed_before(nodes@[i as int], nodes@[#[trigger] order@[k] as int]),
            decreases p,
        {
            p = p - 1;
        }
        proof {
            let ints = as_ints(order@);
            assert forall|k: int| p <= k < ints.len() implies #[trigger] listing_before(nodes@)(i as int, ints[k]) by {
                assert(ints[k] == order@[k] as int);
            }
            if p > 0 {
                assert(ints[p - 1] == order@[p - 1] as int);
            }
            lemma_insert_by(ints, i as int, listing_before(nodes@), p as int);
        }
        order.insert(p, i);
        assert(as_ints(order@) =~= listing_order(nodes@, (i + 1) as nat));
    }
    order
}


/// Index of the last `'.'` in `name`, or -1 when there is none.
pub open spec fn last_dot(name: Seq<char>) -> int
    decreases name.len(),
{
    if name.len() == 0 {
        -1
    } else if name.last() == '.' {
        name.len() - 1
    } else {
        last_dot(name.drop_last())
    }
}

/// The extension of a file name as `Path::extension` finds it, or the empty
/// string where it finds none (no dot, a leading dot only, or `..`).
pub open spec fn file_extension(name: Seq<char>) -> Seq<char> {
    if name == ".."@ || last_dot(name) <= 0 {
        seq![]
    } else {
        name.subrange(last_dot(name) + 1, name.len() as int)
    }
}

/// The slash-separated path of entry `name` inside the directory whose path
/// relative to the scan root is `prefix` (`depth` 0 is the root itself).
pub open spec fn relative_entry_path(prefix: Seq<char>, name: Seq<char>, depth: int) -> Seq<char> {
    let n = replace_char_spec(name, '\\', '/');
    if depth == 0 {
        n
    } else {
        prefix.push('/') + n
    }
}

/// The asset kind inferred from a file name.
pub open spec fn file_kind(name: Seq<char>) -> AssetKind {
    extension_kind(lowercase(file_extension(name)))
}

/// The assets found in a directory listing at `depth`: nothing beyond
/// `max_depth`, else the entries in listing order, files as assets and
/// directories by their own contents.
pub open spec fn dir_assets(children: Seq<DirNode>, prefix: Seq<char>, depth: int, max_depth: int) -> Seq<(Seq<char>, AssetKind)>
    decreases max_depth - depth + 1, 2int, 0int,
{
    if depth < 0 || depth > max_depth {
        seq![]
    } else {
        listed_assets(sorted_listing(children), prefix, depth, max_depth)
    }
}

/// The assets of `entries`, taken in the given order.
pub open spec fn listed_assets(entries: Seq<DirNode>, prefix: Seq<char>, depth: int, max_depth: int) -> Seq<(Seq<char>, AssetKind)>
    decreases max_depth - depth + 1, 1int, entries.len(),
{
    if depth < 0 || depth > max_depth || entries.len() == 0 {
        seq![]
    } else {
        node_assets(entries[0], prefix, depth, max_depth) + listed_assets(entries.drop_first(), prefix, depth, max_depth)
    }
}

/// The assets of one entry: a file is one asset, a directory contributes the
/// assets one level deeper.
pub open spec fn node_assets(node: DirNode, prefix: Seq<char>, depth: int, max_depth: int) -> Seq<(Seq<char>, AssetKind)>
    decreases max_depth - depth + 1, 0int, 0int,
{
    if depth < 0 || depth > max_depth {
        seq![]
    } else {
        let rel = relative_entry_path(prefix, node.name@, depth);
        if node.is_dir {
            dir_assets(node.children@, rel, depth + 1, max_depth)
        } else {
            seq![(rel, file_kind(node.name@))]
        }
    }
}

/// The views of a sequence of asset entries.
pub open spec fn entry_views(v: Seq<AssetEntry>) -> Seq<(Seq<char>, AssetKind)> {
    v.map_values(|e: AssetEntry| e@)
}

proof fn lemma_listed_assets_push(entries: Seq<DirNode>, x: DirNode, prefix: Seq<char>, depth: int, max_depth: int)
    requires
        0 <= depth <= max_depth,
    ensures
        listed_assets(entries.push(x), prefix, depth, max_depth) == listed_assets(entries, prefix, depth, max_depth) + node_assets(x, prefix, depth, max_depth),
    decreases entries.len(),
{
    if entries.len() == 0 {
        assert(entries.push(x).drop_first() =~= entries);
        assert(entries.push(x)[0] == x);
        assert(listed_assets(entries, prefix, depth, max_depth) == Seq::<(Seq<char>, AssetKind)>::empty());
        assert(listed_assets(entries.push(x), prefix, depth, max_depth) =~= node_assets(x, prefix, depth, max_depth) + listed_assets(entries, prefix, depth, max_depth));
    } else {
        lemma_listed_assets_push(entries.drop_first(), x, prefix, depth, max_depth);
        assert(entries.push(x).drop_first() =~= entries.drop_first().push(x));
        assert(listed_assets(entries.push(x), prefix, depth, max_depth) =~= listed_assets(entries, prefix, depth, max_depth) + node_assets(x, prefix, depth, max_depth));
    }
}

/// The extension of `name` (see [`file_extension`]).
pub fn extension_of(name: &str) -> (ext: String)
    ensures
        ext@ == file_extension(name@),
{
    let cs = chars_of(name);
    if str_eq(name, "..") {
        return String::new();
    }
    let mut k = cs.len();
    assert(name@.take(k as int) =~= name@);
    while k > 0 && cs[k - 1] != '.'
        invariant
            cs@ == name@,
            k <= cs@.len(),
            last_dot(name@) == last_dot(name@.take(k as int)),
        decreases k,
    {
        assert(name@.take(k as int).drop_last() =~= name@.take(k - 1));
        k = k - 1;
    }
    if k <= 1 {
        return String::new();
    }
    let mut r = String::new();
    let mut j = k;
    while j < cs.len()
        invariant
            cs@ == name@,
            1 < k <= j <= cs@.len(),
            r@ == name@.subrange(k as int, j as int),
        decreases cs.len() - j,
    {
        crate::text::push_char(&mut r, cs[j]);
        assert(name@.subrange(k as int, j + 1) =~= name@.subrange(k as int, j as int).push(name@[j as int]));
        j = j + 1;
    }
    r
}

/// The path of `name` inside the directory at `prefix`, `depth` levels below
/// the scan root.
pub(crate) fn entry_path(prefix: &String, name: &str, depth: usize) -> (r: String)
    ensures
        r@ == relative_entry_path(prefix@, name@, depth as int),
{
    let n = replace_char(name, '\\', '/');
    if depth == 0 {
        n
    } else {
        let mut r = crate::text::owned(prefix.as_str());
        crate::text::push_char(&mut r, '/');
        r.append(n.as_str());
        r
    }
}

fn scan_listing(children: &Vec<DirNode>, prefix: &String, depth: usize, max_depth: usize, out: &mut Vec<AssetEntry>)
    requires
        depth <= max_depth,
    ensures
        entry_views(final(out)@) == entry_views(old(out)@) + dir_assets(children@, prefix@, depth as int, max_depth as int),
    decreases max_depth - depth,
{
    let order = sort_listing(children);
    let ghost sorted = sorted_listing(children@);
    let ghost start = entry_views(out@);
    assert(sorted.len() == order@.len());
    for k in 0..order.len()
        invariant
            depth <= max_depth,
            as_ints(order@) == listing_order(children@, children@.len()),
            forall|j: int| 0 <= j < order@.len() ==> #[trigger] order@[j] < children@.len(),
            sorted == sorted_listing(children@),
            sorted.len() == order@.len(),
            entry_views(out@) == start + listed_assets(sorted.take(k as int), prefix@, depth as int, max_depth as int),
    {
        let node = &children[order[k]];
        assert(sorted[k as int] == *node) by {
            assert(as_ints(order@)[k as int] == order@[k as int] as int);
        }
        proof {
            lemma_listed_assets_push(sorted.take(k as int), *node, prefix@, depth as int, max_depth as int);
            assert(sorted.take(k + 1) =~= sorted.take(k as int).push(*node));
        }
        let ghost before = entry_views(out@);
        let rel = entry_path(prefix, node.name.as_str(), depth);
        if node.is_dir {
            if depth < max_depth {
                scan_listing(&node.children, &rel, depth + 1, max_depth, out);
            } else {
                assert(dir_assets(node.children@, rel@, depth + 1, max_depth as int) == Seq::<(Seq<char>, AssetKind)>::empty());
            }
            assert(entry_views(out@) =~= before + node_assets(*node, prefix@, depth as int, max_depth as int));
        } else {
            let ext = extension_of(node.name.as_str());
            let kind = AssetKind::from_extension(ext.as_str());
            out.push(AssetEntry { relative_path: rel, kind });
            assert(entry_views(out@) =~= before + node_assets(*node, prefix@, depth as int, max_depth as int));
        }
        assert(entry_views(out@) =~= start + listed_assets(sorted.take(k + 1), prefix@, depth as int, max_depth as int));
    }
    assert(sorted.take(order@.len() as int) =~= sorted);
}

/// Scan the directory tree `root` for asset files up to `max_depth`
/// directory levels below it.
///
/// Entries come in listing order — directories before files, each group
/// sorted by name — with a directory's assets in place of the directory.
pub fn scan_assets(root: &DirNode, max_depth: usize) -> (entries: Vec<AssetEntry>)
    ensures
        entry_views(entries@) == dir_assets(root.children@, seq![], 0, max_depth as int),
{
    let mut out: Vec<AssetEntry> = Vec::new();
    let prefix = String::new();
    scan_listing(&root.children, &prefix, 0, max_depth, &mut out);
    assert(entry_views(out@) =~= dir_assets(root.children@, seq![], 0, max_depth as int));
    out
}

} // verus!
