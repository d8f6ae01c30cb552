//! The workspace browser: a collapsible file tree of the project's asset root.

use vstd::prelude::*;

use crate::project::{kind_icon, AssetKind};
use crate::ordering::as_ints;
use crate::scan::{
    entry_path, extension_of, file_kind, listing_order, relative_entry_path, sort_listing,
    sorted_listing, DirNode,
};
use crate::paths::{join, path_join};
use crate::text::{chars_of, contains, lowercase, occurs_in, push_char, str_eq, to_lowercase};

verus! {

/// Deepest directory level the browser lists (the root is level 0).
pub const BROWSER_MAX_DEPTH: usize = 4;

/// Icon of a directory row.
pub const FOLDER_ICON: &'static str = "📁";

/// One row of the browser tree.
#[derive(Debug, Clone)]
pub struct BrowserEntry {
    /// File name shown in the row.
    pub display: String,
    /// Relative path from the asset root (forward-slash separated).
    pub path: String,
    /// The row is a directory.
    pub is_dir: bool,
    /// Nesting level below the root.
    pub depth: usize,
    /// Icon string inferred from the file extension for non-directory entries.
    pub icon: &'static str,
}

/// What a browser row shows: name, relative path, directory flag, depth, icon.
pub type BrowserRow = (Seq<char>, Seq<char>, bool, int, Seq<char>);

impl View for BrowserEntry {
    type V = BrowserRow;

    open spec fn view(&self) -> BrowserRow {
        (self.display@, self.path@, self.is_dir, self.depth as int, self.icon@)
    }
}

/// The views of a sequence of browser rows.
pub open spec fn row_views(v: Seq<BrowserEntry>) -> Seq<BrowserRow> {
    v.map_values(|e: BrowserEntry| e@)
}

/// The row of one entry of a listing.
pub open spec fn browser_row(node: DirNode, prefix: Seq<char>, depth: int) -> BrowserRow {
    (
        node.name@,
        relative_entry_path(prefix, node.name@, depth),
        node.is_dir,
        depth,
        if node.is_dir { FOLDER_ICON@ } else { kind_icon(file_kind(node.name@)) },
    )
}

/// The rows of a directory listing at `depth`, in listing order, each
/// directory followed by the rows of its contents; nothing below level 4.
pub open spec fn dir_rows(children: Seq<DirNode>, prefix: Seq<char>, depth: int) -> Seq<BrowserRow>
    decreases 5 - depth, 2int, 0int,
{
    if depth < 0 || depth > 4 {
        seq![]
    } else {
        listed_rows(sorted_listing(children), prefix, depth)
    }
}

/// The rows of `entries`, taken in the given order.
pub open spec fn listed_rows(entries: Seq<DirNode>, prefix: Seq<char>, depth: int) -> Seq<BrowserRow>
    decreases 5 - depth, 1int, entries.len(),
{
    if depth < 0 || depth > 4 || entries.len() == 0 {
        seq![]
    } else {
        node_rows(entries[0], prefix, depth) + listed_rows(entries.drop_first(), prefix, depth)
    }
}

/// The row of one entry followed, for a directory, by the rows of its contents.
pub open spec fn node_rows(node: DirNode, prefix: Seq<char>, depth: int) -> Seq<BrowserRow>
    decreases 5 - depth, 0int, 0int,
{
    if depth < 0 || depth > 4 {
        seq![]
    } else if node.is_dir {
        seq![browser_row(node, prefix, depth)] + dir_rows(
            node.children@,
            relative_entry_path(prefix, node.name@, depth),
            depth + 1,
        )
    } else {
        seq![browser_row(node, prefix, depth)]
    }
}

proof fn lemma_listed_rows_push(entries: Seq<DirNode>, x: DirNode, prefix: Seq<char>, depth: int)
    requires
        0 <= depth <= 4,
    ensures
        listed_rows(entries.push(x), prefix, depth) == listed_rows(entries, prefix, depth) + node_rows(x, prefix, depth),
    decreases entries.len(),
{
    if entries.len() == 0 {
        assert(entries.push(x).drop_first() =~= entries);
        assert(entries.push(x)[0] == x);
        assert(listed_rows(entries, prefix, depth) == Seq::<BrowserRow>::empty());
        assert(listed_rows(entries.push(x), prefix, depth) =~= node_rows(x, prefix, depth) + listed_rows(entries, prefix, depth));
    } else {
        lemma_listed_rows_push(entries.drop_first(), x, prefix, depth);
        assert(entries.push(x).drop_first() =~= entries.drop_first().push(x));
        assert(listed_rows(entries.push(x), prefix, depth) =~= listed_rows(entries, prefix, depth) + node_rows(x, prefix, depth));
    }
}

fn scan_rows(children: &Vec<DirNode>, prefix: &String, depth: usize, out: &mut Vec<BrowserEntry>)
    requires
        depth <= 4,
    ensures
        row_views(final(out)@) == row_views(old(out)@) + dir_rows(children@, prefix@, depth as int),
    decreases 4 - depth,
{
    let order = sort_listing(children);
    let ghost sorted = sorted_listing(children@);
    let ghost start = row_views(out@);
    for k in 0..order.len()
        invariant
            depth <= 4,
            as_ints(order@) == listing_order(children@, children@.len()),
            forall|j: int| 0 <= j < order@.len() ==> #[trigger] order@[j] < children@.len(),
            sorted == sorted_listing(children@),
            sorted.len() == order@.len(),
            row_views(out@) == start + listed_rows(sorted.take(k as int), prefix@, depth as int),
    {
        let node = &children[order[k]];
        assert(sorted[k as int] == *node) by {
            assert(as_ints(order@)[k as int] == order@[k as int] as int);
        }
        proof {
            lemma_listed_rows_push(sorted.take(k as int), *node, prefix@, depth as int);
            assert(sorted.take(k + 1) =~= sorted.take(k as int).push(*node));
        }
        let ghost before = row_views(out@);
        let path = entry_path(prefix, node.name.as_str(), depth);
        let icon = if node.is_dir {
            FOLDER_ICON
        } else {
            let ext = extension_of(node.name.as_str());
            AssetKind::from_extension(ext.as_str()).icon()
        };
        let sub_prefix = crate::text::owned(path.as_str());
        out.push(
            BrowserEntry {
                display: crate::text::owned(node.name.as_str()),
                path,
                is_dir: node.is_dir,
                depth,
                icon,
            },
        );
        if node.is_dir {
            if depth < 4 {
                scan_rows(&node.children, &sub_prefix, depth + 1, out);
            } else {
                assert(dir_rows(node.children@, sub_prefix@, depth + 1) == Seq::<BrowserRow>::empty());
            }
        }
        assert(row_views(out@) =~= before + node_rows(*node, prefix@, depth as int));
        assert(row_views(out@) =~= start + listed_rows(sorted.take(k + 1), prefix@, depth as int));
    }
    assert(sorted.take(order@.len() as int) =~= sorted);
}

/// The rows of the file tree `root`: every entry down to level 4, in listing
/// order (directories first, then by name), each directory followed by its
/// contents.
pub fn scan_dir(root: &DirNode) -> (rows: Vec<BrowserEntry>)
    ensures
        row_views(rows@) == dir_rows(root.children@, seq![], 0),
{
    let mut out: Vec<BrowserEntry> = Vec::new();
    let prefix = String::new();
    scan_rows(&root.children, &prefix, 0, &mut out);
    assert(row_views(out@) =~= dir_rows(root.children@, seq![], 0));
    out
}


/// The set of strings held by `v`.
pub open spec fn string_set(v: Seq<String>) -> Set<Seq<char>> {
    Set::new(|s: Seq<char>| exists|k: int| 0 <= k < v.len() && #[trigger] v[k]@ == s)
}

/// `v` holds `s`.
pub fn holds_string(v: &Vec<String>, s: &str) -> (r: bool)
    ensures
        r == string_set(v@).contains(s@),
{
    for k in 0..v.len()
        invariant
            forall|j: int| 0 <= j < k ==> v@[j]@ != s@,
    {
        if str_eq(v[k].as_str(), s) {
            return true;
        }
    }
    false
}

/// The set `s` with `p` removed if it holds it, added otherwise.
pub open spec fn toggled(s: Set<Seq<char>>, p: Seq<char>) -> Set<Seq<char>> {
    if s.contains(p) {
        s.remove(p)
    } else {
        s.insert(p)
    }
}

/// Toggling a directory twice restores the collapse state.
pub proof fn lemma_toggle_twice(s: Set<Seq<char>>, p: Seq<char>)
    ensures
        toggled(toggled(s, p), p) == s,
{
    assert(toggled(toggled(s, p), p) =~= s);
}

/// Some proper ancestor directory of `path` — a prefix of it that ends just
/// before a `/` — is in `collapsed`.
pub open spec fn ancestor_collapsed(collapsed: Set<Seq<char>>, path: Seq<char>) -> bool {
    exists|j: int| 0 <= j < path.len() && path[j] == '/' && collapsed.contains(#[trigger] path.subrange(0, j))
}

/// The browser row at index `i` is shown: no ancestor is collapsed, and
/// under a non-empty filter it is a directory or its name holds the filter.
pub open spec fn row_shown(row: BrowserRow, collapsed: Set<Seq<char>>, filter: Seq<char>) -> bool {
    &&& !ancestor_collapsed(collapsed, row.1)
    &&& (lowercase(filter).len() == 0 || row.2 || occurs_in(lowercase(filter), lowercase(row.0)))
}

/// State of the workspace browser panel.
pub struct WorkspaceBrowser {
    /// Absolute path of the asset root being shown.
    pub root: Option<String>,
    /// The rows of the file tree.
    pub entries: Vec<BrowserEntry>,
    /// Text typed in the filter box.
    pub filter: String,
    /// Index of the selected row.
    pub selected: Option<usize>,
    /// Relative paths of directories that are currently collapsed.
    pub collapsed: Vec<String>,
    /// Set by the context menu when the user chooses "Open in File Editor";
    /// the main app reads and clears it every frame.
    pub open_file_request: Option<String>,
}

impl WorkspaceBrowser {
    /// An empty browser with no root.
    pub fn new() -> (b: Self)
        ensures
            b.root.is_none(),
            b.entries@.len() == 0,
            b.filter@.len() == 0,
            b.selected.is_none(),
            b.collapsed@.len() == 0,
            b.open_file_request.is_none(),
    {
        WorkspaceBrowser {
            root: None,
            entries: Vec::new(),
            filter: String::new(),
            selected: None,
            collapsed: Vec::new(),
            open_file_request: None,
        }
    }

    /// The set of collapsed directory paths.
    pub open spec fn collapsed_set(&self) -> Set<Seq<char>> {
        string_set(self.collapsed@)
    }

    /// Show the tree `tree` read from `root`: clears the selection and the
    /// collapse state, which were relative to the previous root.
    pub fn set_root(&mut self, root: String, tree: &DirNode)
        ensures
            final(self).root == Some(root),
            row_views(final(self).entries@) == dir_rows(tree.children@, seq![], 0),
            final(self).selected.is_none(),
            final(self).collapsed@.len() == 0,
            final(self).filter == old(self).filter,
            final(self).open_file_request == old(self).open_file_request,
    {
        self.entries = scan_dir(tree);
        self.root = Some(root);
        self.selected = None;
        self.collapsed = Vec::new();
    }

    /// The absolute path of the selected **file** row, or `None` when nothing
    /// or a directory is selected.
    pub fn selected_absolute_path(&self) -> (p: Option<String>)
        ensures
            p matches Some(s) ==> {
                &&& self.root is Some
                &&& self.selected is Some
                &&& self.selected->0 < self.entries@.len()
                &&& !self.entries@[self.selected->0 as int].is_dir
                &&& s@ == path_join(self.root->0@, self.entries@[self.selected->0 as int].path@)
            },
            p is None ==> (self.root is None || self.selected is None || self.selected->0
                >= self.entries@.len() || self.entries@[self.selected->0 as int].is_dir),
    {
        match (&self.root, self.selected) {
            (Some(root), Some(idx)) => {
                if idx < self.entries.len() && !self.entries[idx].is_dir {
                    Some(join(root.as_str(), self.entries[idx].path.as_str()))
                } else {
                    None
                }
            },
            _ => None,
        }
    }

    /// Returns `true` if any ancestor directory of `path` is collapsed.
    /// `path` is a relative, forward-slash separated string.
    pub fn is_ancestor_collapsed(&self, path: &str) -> (r: bool)
        ensures
            r == ancestor_collapsed(self.collapsed_set(), path@),
    {
        let cs = chars_of(path);
        let mut prefix = String::new();
        for j in 0..cs.len()
            invariant
                cs@ == path@,
                prefix@ == path@.subrange(0, j as int),
                forall|i: int| 0 <= i < j && path@[i] == '/' ==> !self.collapsed_set().contains(#[trigger] path@.subrange(0, i)),
        {
            if cs[j] == '/' && holds_string(&self.collapsed, prefix.as_str()) {
                return true;
            }
            push_char(&mut prefix, cs[j]);
            assert(path@.subrange(0, j + 1) =~= path@.subrange(0, j as int).push(path@[j as int]));
        }
        false
    }

    /// Collapse the directory at `path` if it is expanded, expand it if it
    /// is collapsed.
    pub fn toggle_collapsed(&mut self, path: &str)
        ensures
            final(self).collapsed_set() == toggled(old(self).collapsed_set(), path@),
            final(self).entries == old(self).entries,
            final(self).selected == old(self).selected,
            final(self).root == old(self).root,
    {
        let ghost old_set = self.collapsed_set();
        if holds_string(&self.collapsed, path) {
            let mut kept: Vec<String> = Vec::new();
            assert(self.collapsed@.take(0) =~= Seq::<String>::empty());
            assert(string_set(kept@) =~= string_set(self.collapsed@.take(0)).remove(path@));
            for k in 0..self.collapsed.len()
                invariant
                    string_set(kept@) == string_set(self.collapsed@.take(k as int)).remove(path@),
            {
                let ghost prev = kept@;
                proof {
                    assert(self.collapsed@.take(k + 1) =~= self.collapsed@.take(k as int).push(self.collapsed@[k as int]));
                    lemma_string_set_push(self.collapsed@.take(k as int), self.collapsed@[k as int]);
                }
                if !str_eq(self.collapsed[k].as_str(), path) {
                    kept.push(crate::text::owned(self.collapsed[k].as_str()));
                    proof {
                        lemma_string_set_push(prev, kept@[kept@.len() - 1]);
                        assert(kept@ =~= prev.push(kept@[kept@.len() - 1]));
                    }
                }
                assert(string_set(kept@) =~= string_set(self.collapsed@.take(k + 1)).remove(path@));
            }
            assert(self.collapsed@.take(self.collapsed@.len() as int) =~= self.collapsed@);
            self.collapsed = kept;
        } else {
            let owned = crate::text::owned(path);
            proof {
                lemma_string_set_push(self.collapsed@, owned);
            }
            self.collapsed.push(owned);
        }
    }
}

/// The indices `0..n` of the rows that the browser shows, in order.
pub open spec fn shown_rows(rows: Seq<BrowserRow>, collapsed: Set<Seq<char>>, filter: Seq<char>, n: nat) -> Seq<int>
    decreases n,
{
    if n == 0 {
        seq![]
    } else if row_shown(rows[n - 1], collapsed, filter) {
        shown_rows(rows, collapsed, filter, (n - 1) as nat).push(n - 1)
    } else {
        shown_rows(rows, collapsed, filter, (n - 1) as nat)
    }
}

/// A path whose prefix before some `/` — a directory above it at any depth —
/// is collapsed has a collapsed ancestor.
pub proof fn lemma_any_collapsed_ancestor_counts(collapsed: Set<Seq<char>>, path: Seq<char>, j: int)
    requires
        0 <= j < path.len(),
        path[j] == '/',
        collapsed.contains(path.subrange(0, j)),
    ensures
        ancestor_collapsed(collapsed, path),
{
}

proof fn lemma_shown_rows_members(rows: Seq<BrowserRow>, collapsed: Set<Seq<char>>, filter: Seq<char>, n: nat, i: int)
    requires
        n <= rows.len(),
    ensures
        shown_rows(rows, collapsed, filter, n).contains(i) <==> (0 <= i < n && row_shown(rows[i], collapsed, filter)),
    decreases n,
{
    if n > 0 {
        let prev = shown_rows(rows, collapsed, filter, (n - 1) as nat);
        lemma_shown_rows_members(rows, collapsed, filter, (n - 1) as nat, i);
        lemma_shown_rows_members(rows, collapsed, filter, (n - 1) as nat, n - 1);
        if row_shown(rows[n - 1], collapsed, filter) {
            assert(prev.push(n - 1).contains(i) <==> (prev.contains(i) || i == n - 1)) by {
                if prev.push(n - 1).contains(i) {
                    let k = choose|k: int| 0 <= k < prev.push(n - 1).len() && #[trigger] prev.push(n - 1)[k] == i;
                    if k < prev.len() {
                        assert(prev[k] == i);
                    }
                }
                if prev.contains(i) {
                    let k = choose|k: int| 0 <= k < prev.len() && #[trigger] prev[k] == i;
                    assert(prev.push(n - 1)[k] == i);
                }
                if i == n - 1 {
                    assert(prev.push(n - 1)[prev.len() as int] == i);
                }
            }
        }
    }
}

/// The browser shows row `i` exactly when no directory above it, at any
/// depth, is collapsed, and — under a non-empty filter — the row is a
/// directory or its name contains the filter, ignoring case.
pub proof fn lemma_visible_rows_law(rows: Seq<BrowserRow>, collapsed: Set<Seq<char>>, filter: Seq<char>, i: int)
    requires
        0 <= i < rows.len(),
    ensures
        shown_rows(rows, collapsed, filter, rows.len()).contains(i) <==> ((forall|j: int|
            0 <= j < rows[i].1.len() && rows[i].1[j] == '/' ==> !collapsed.contains(#[trigger] rows[i].1.subrange(0, j)))
            && (lowercase(filter).len() == 0 || rows[i].2 || exists|p: int|
            0 <= p <= lowercase(rows[i].0).len() - lowercase(filter).len() && #[trigger] lowercase(rows[i].0).subrange(
                p,
                p + lowercase(filter).len(),
            ) == lowercase(filter))),
{
    lemma_shown_rows_members(rows, collapsed, filter, rows.len(), i);
}

impl WorkspaceBrowser {
    /// The indices of the rows to draw: rows inside a collapsed directory
    /// are hidden, and a non-empty filter keeps directories and the files
    /// whose name contains it (ignoring case).
    pub fn visible_rows(&self) -> (shown: Vec<usize>)
        ensures
            as_ints(shown@) == shown_rows(row_views(self.entries@), self.collapsed_set(), self.filter@, self.entries@.len()),
    {
        let filter_lower = to_lowercase(self.filter.as_str());
        let no_filter = filter_lower.as_str().unicode_len() == 0;
        let mut shown: Vec<usize> = Vec::new();
        for i in 0..self.entries.len()
            invariant
                filter_lower@ == lowercase(self.filter@),
                no_filter == (lowercase(self.filter@).len() == 0),
                as_ints(shown@) == shown_rows(row_views(self.entries@), self.collapsed_set(), self.filter@, i as nat),
        {
            let e = &self.entries[i];
            let keep = !self.is_ancestor_collapsed(e.path.as_str()) && (no_filter || e.is_dir || {
                let name_lower = to_lowercase(e.display.as_str());
                contains(name_lower.as_str(), filter_lower.as_str())
            });
            assert(row_views(self.entries@)[i as int] == e@);
            if keep {
                shown.push(i);
            }
            assert(as_ints(shown@) =~= shown_rows(row_views(self.entries@), self.collapsed_set(), self.filter@, (i + 1) as nat));
        }
        shown
    }

    /// Select row `i` (a click on it).
    pub fn select(&mut self, i: usize)
        ensures
            final(self).selected == Some(i),
            final(self).entries == old(self).entries,
            final(self).root == old(self).root,
            final(self).collapsed == old(self).collapsed,
            final(self).open_file_request == old(self).open_file_request,
    {
        self.selected = Some(i);
    }

    /// "Open in File Editor" on row `i`: selects it and asks the main app to
    /// open its absolute path.
    pub fn request_open(&mut self, i: usize)
        requires
            i < old(self).entries@.len(),
        ensures
            final(self).selected == Some(i),
            old(self).root matches Some(r) ==> final(self).open_file_request matches Some(p) && p@
                == path_join(r@, old(self).entries@[i as int].path@),
            old(self).root is None ==> final(self).open_file_request == old(self).open_file_request,
            final(self).entries == old(self).entries,
            final(self).root == old(self).root,
    {
        self.selected = Some(i);
        if let Some(root) = &self.root {
            self.open_file_request = Some(join(root.as_str(), self.entries[i].path.as_str()));
        }
    }

    /// The text of row `i`: a directory shows `▸` when collapsed, `▾` when
    /// expanded, then the folder icon and its name; a file shows its icon
    /// and name.
    pub fn row_label(&self, i: usize) -> (label: String)
        requires
            i < self.entries@.len(),
        ensures
            ({
                let e = self.entries@[i as int];
                if e.is_dir {
                    label@ == (if self.collapsed_set().contains(e.path@) { "▸"@ } else { "▾"@ }) + " 📁 "@
                        + e.display@
                } else {
                    label@ == e.icon@ + " "@ + e.display@
                }
            }),
    {
        let e = &self.entries[i];
        if e.is_dir {
            let mut label = if holds_string(&self.collapsed, e.path.as_str()) {
                crate::text::owned("▸")
            } else {
                crate::text::owned("▾")
            };
            label.append(" 📁 ");
            label.append(e.display.as_str());
            label
        } else {
            let mut label = crate::text::owned(e.icon);
            label.append(" ");
            label.append(e.display.as_str());
            label
        }
    }

    /// The note under the tree when it has nothing to show: without a root
    /// the user is asked to open a project; with a root and no rows the
    /// directory is empty or could not be read.
    pub fn empty_note(&self) -> (note: Option<&'static str>)
        ensures
            self.root is None ==> (note matches Some(s) && s@ == "Open a project to browse its files."@),
            self.root is Some && self.entries@.len() == 0 ==> (note matches Some(s) && s@
                == "Directory is empty or inaccessible."@),
            self.root is Some && self.entries@.len() > 0 ==> note is None,
    {
        if self.root.is_none() {
            Some("Open a project to browse its files.")
        } else if self.entries.len() == 0 {
            Some("Directory is empty or inaccessible.")
        } else {
            None
        }
    }

    /// The directory the refresh button re-reads: the current root, else the
    /// project's asset root.
    pub fn refresh_target(&self, asset_root: Option<&String>) -> (t: Option<String>)
        ensures
            self.root matches Some(r) ==> t matches Some(s) && s@ == r@,
            self.root is None ==> (t is Some <==> asset_root is Some),
            self.root is None && asset_root is Some ==> t->0@ == asset_root->0@,
    {
        match &self.root {
            Some(r) => Some(crate::text::owned(r.as_str())),
            None => match asset_root {
                Some(a) => Some(crate::text::owned(a.as_str())),
                None => None,
            },
        }
    }

    /// The directory to show when the panel is drawn without a root of its
    /// own: the project's asset root, if any.
    pub fn auto_root(&self, asset_root: Option<&String>) -> (t: Option<String>)
        ensures
            self.root is Some ==> t is None,
            self.root is None ==> (t is Some <==> asset_root is Some),
            self.root is None && asset_root is Some ==> t->0@ == asset_root->0@,
    {
        match (&self.root, asset_root) {
            (None, Some(a)) => Some(crate::text::owned(a.as_str())),
            _ => None,
        }
    }
}

proof fn lemma_string_set_push(v: Seq<String>, x: String)
    ensures
        string_set(v.push(x)) == string_set(v).insert(x@),
{
    assert forall|s: Seq<char>| #[trigger] string_set(v.push(x)).contains(s) implies string_set(v).insert(x@).contains(s) by {
        let j = choose|j: int| 0 <= j < v.push(x).len() && #[trigger] v.push(x)[j]@ == s;
        if j < v.len() {
            assert(v[j]@ == s);
        }
    }
    assert forall|s: Seq<char>| string_set(v).insert(x@).contains(s) implies #[trigger] string_set(v.push(x)).contains(s) by {
        if s == x@ {
            assert(v.push(x)[v.len() as int]@ == s);
        } else {
            let j = choose|j: int| 0 <= j < v.len() && #[trigger] v[j]@ == s;
            assert(v.push(x)[j]@ == s);
        }
    }
    assert(string_set(v.push(x)) =~= string_set(v).insert(x@));
}

} // verus!
