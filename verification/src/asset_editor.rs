//! The asset browser and inspector panel: filtering, selection, text
//! previews and file details of the assets under the project's asset root.

use vstd::prelude::*;

use crate::calendar::{civil_from_days, days_to_ymd};
use crate::paths::{file_name_of, join, path_file_name, path_join};
use crate::project::{kind_icon, kind_name, AssetEntry, AssetKind};
use crate::scan::{dir_assets, entry_views, scan_assets, DirNode};
use crate::text::{
    chars_of, contains, decimal, lowercase, occurs_in, push_char, push_zero_padded, str_eq,
    to_lowercase, zero_padded,
};

verus! {

/// Directory levels below the asset root that the panel scans.
pub const ASSET_SCAN_DEPTH: usize = 4;

/// The extensions (in lowercase) of files that open in the Game File Editor.
pub open spec fn text_extension(e: Seq<char>) -> bool {
    e == "toml"@ || e == "ron"@ || e == "json"@ || e == "yaml"@ || e == "yml"@ || e == "lua"@
        || e == "txt"@ || e == "md"@ || e == "conf"@ || e == "cfg"@ || e == "ini"@ || e
        == "glsl"@ || e == "wgsl"@ || e == "vert"@ || e == "frag"@ || e == "comp"@ || e
        == "hlsl"@ || e == "py"@ || e == "sh"@ || e == "bat"@ || e == "rs"@
}

/// Returns `true` for file extensions that can be opened in the Game File
/// Editor; letter case is ignored.
pub fn is_text_ext(ext: &str) -> (r: bool)
    ensures
        r == text_extension(lowercase(ext@)),
{
    let lower = to_lowercase(ext);
    is_lowercase_text_ext(lower.as_str())
}

/// [`is_text_ext`] for an extension that is already in lowercase.
pub fn is_lowercase_text_ext(e: &str) -> (r: bool)
    ensures
        r == text_extension(e@),
{
    str_eq(e, "toml") || str_eq(e, "ron") || str_eq(e, "json") || str_eq(e, "yaml") || str_eq(
        e,
        "yml",
    ) || str_eq(e, "lua") || str_eq(e, "txt") || str_eq(e, "md") || str_eq(e, "conf") || str_eq(
        e,
        "cfg",
    ) || str_eq(e, "ini") || str_eq(e, "glsl") || str_eq(e, "wgsl") || str_eq(e, "vert")
        || str_eq(e, "frag") || str_eq(e, "comp") || str_eq(e, "hlsl") || str_eq(e, "py")
        || str_eq(e, "sh") || str_eq(e, "bat") || str_eq(e, "rs")
}

/// The text of a modification time, `YYYY-MM-DD hh:mm:ss UTC`, for a time
/// `secs` seconds after the Unix epoch.
pub open spec fn timestamp_text(secs: nat) -> Seq<char> {
    let civil = civil_from_days((secs / 86400) as int);
    let s = secs % 60;
    let m = (secs / 60) % 60;
    let h = (secs / 3600) % 24;
    zero_padded(decimal((civil.0 % 0x1_0000_0000) as nat), 4) + "-"@ + zero_padded(
        decimal(civil.1 as nat),
        2,
    ) + "-"@ + zero_padded(decimal(civil.2 as nat), 2) + " "@ + zero_padded(decimal(h), 2) + ":"@
        + zero_padded(decimal(m), 2) + ":"@ + zero_padded(decimal(s), 2) + " UTC"@
}

/// Format a modification time given as seconds since the Unix epoch (UTC,
/// e.g. "2025-11-03 14:22:07 UTC"); `None`, a time before the epoch, gives
/// "—".
pub fn format_system_time(since_epoch: Option<u64>) -> (text: String)
    ensures
        since_epoch is None ==> text@ == "—"@,
        since_epoch matches Some(secs) ==> text@ == timestamp_text(secs as nat),
{
    let secs = match since_epoch {
        Some(secs) => secs,
        None => return crate::text::owned("—"),
    };
    let s = secs % 60;
    let m = (secs / 60) % 60;
    let h = (secs / 3600) % 24;
    let days = secs / 86_400;
    let (year, month, day) = days_to_ymd(days);
    let mut text = String::new();
    push_zero_padded(&mut text, year as u64, 4);
    text.append("-");
    push_zero_padded(&mut text, month as u64, 2);
    text.append("-");
    push_zero_padded(&mut text, day as u64, 2);
    text.append(" ");
    push_zero_padded(&mut text, h, 2);
    text.append(":");
    push_zero_padded(&mut text, m, 2);
    text.append(":");
    push_zero_padded(&mut text, s, 2);
    text.append(" UTC");
    proof {
        assert(days as int == (secs as nat / 86400) as int);
    }
    text
}


/// Index of the first `'\n'` in `s`, or `s.len()` when there is none.
pub open spec fn first_newline(s: Seq<char>) -> int
    decreases s.len(),
{
    if s.len() == 0 {
        0
    } else if s[0] == '\n' {
        0
    } else {
        1 + first_newline(s.drop_first())
    }
}

/// A line without its line ending: a `'\r'` before the `'\n'` is dropped.
pub open spec fn strip_cr(line: Seq<char>) -> Seq<char> {
    if line.len() > 0 && line.last() == '\r' {
        line.drop_last()
    } else {
        line
    }
}

/// The lines of `s` as `str::lines` yields them: split at `'\n'` (with a
/// preceding `'\r'` removed), with no empty line after a final line ending.
pub open spec fn text_lines(s: Seq<char>) -> Seq<Seq<char>>
    decreases s.len(),
{
    if s.len() == 0 {
        seq![]
    } else {
        let i = first_newline(s);
        proof {
            lemma_first_newline_bounds(s);
        }
        if i >= s.len() {
            seq![s]
        } else {
            seq![strip_cr(s.subrange(0, i))] + text_lines(s.subrange(i + 1, s.len() as int))
        }
    }
}

pub proof fn lemma_first_newline_bounds(s: Seq<char>)
    ensures
        0 <= first_newline(s) <= s.len(),
    decreases s.len(),
{
    if s.len() > 0 {
        lemma_first_newline_bounds(s.drop_first());
    }
}

/// At most the first `n` of `lines`.
pub open spec fn first_lines(lines: Seq<Seq<char>>, n: int) -> Seq<Seq<char>> {
    if lines.len() <= n {
        lines
    } else {
        lines.take(n)
    }
}

/// `lines` joined with `'\n'` between them.
pub open spec fn join_lines(lines: Seq<Seq<char>>) -> Seq<char>
    decreases lines.len(),
{
    if lines.len() == 0 {
        seq![]
    } else if lines.len() == 1 {
        lines[0]
    } else {
        join_lines(lines.drop_last()) + seq!['\n'] + lines.last()
    }
}

/// Lines of a text preview.
pub const PREVIEW_LINES: usize = 20;

proof fn lemma_first_newline(s: Seq<char>, i: int)
    requires
        0 <= i <= s.len(),
        forall|k: int| 0 <= k < i ==> s[k] != '\n',
        i == s.len() || s[i] == '\n',
    ensures
        first_newline(s) == i,
    decreases s.len(),
{
    if s.len() > 0 && i > 0 {
        lemma_first_newline(s.drop_first(), i - 1);
    }
}

/// The first 20 lines of `content`, joined with `'\n'`.
pub fn preview_text(content: &str) -> (text: String)
    ensures
        text@ == join_lines(first_lines(text_lines(content@), PREVIEW_LINES as int)),
{
    let cs = chars_of(content);
    let mut text = String::new();
    let mut count: usize = 0;
    let mut i: usize = 0;
    let ghost all = text_lines(content@);
    assert(content@.subrange(0, cs@.len() as int) =~= content@);
    assert(all.take(0) =~= Seq::<Seq<char>>::empty());
    while i < cs.len() && count < PREVIEW_LINES
        invariant
            cs@ == content@,
            i <= cs@.len(),
            count <= PREVIEW_LINES,
            all == text_lines(content@),
            count <= all.len(),
            all == all.take(count as int) + text_lines(content@.subrange(i as int, cs@.len() as int)),
            text@ == join_lines(all.take(count as int)),
        decreases cs@.len() - i,
    {
        let ghost rest = content@.subrange(i as int, cs@.len() as int);
        let mut j = i;
        while j < cs.len() && cs[j] != '\n'
            invariant
                cs@ == content@,
                i <= j <= cs@.len(),
                forall|k: int| i <= k < j ==> content@[k] != '\n',
            decreases cs@.len() - j,
        {
            j = j + 1;
        }
        proof {
            lemma_first_newline(rest, j - i);
        }
        let end = if j < cs.len() && j > i && cs[j - 1] == '\r' { j - 1 } else { j };
        let mut line = String::new();
        let mut k = i;
        while k < end
            invariant
                cs@ == content@,
                i <= k <= end <= cs@.len(),
                line@ == content@.subrange(i as int, k as int),
            decreases end - k,
        {
            push_char(&mut line, cs[k]);
            assert(content@.subrange(i as int, k + 1) =~= content@.subrange(i as int, k as int).push(content@[k as int]));
            k = k + 1;
        }
        let ghost this_line = if j < cs.len() { strip_cr(rest.subrange(0, j - i)) } else { rest };
        assert(line@ =~= this_line);
        let ghost next: int = if j < cs.len() { j + 1 } else { j as int };
        proof {
            if j < cs.len() {
                assert(rest.subrange(j - i + 1, rest.len() as int) =~= content@.subrange(j + 1, cs@.len() as int));
                assert(text_lines(rest) == seq![this_line] + text_lines(content@.subrange(next as int, cs@.len() as int)));
            } else {
                assert(content@.subrange(next as int, cs@.len() as int) =~= Seq::<char>::empty());
                assert(text_lines(rest) == seq![this_line]);
                assert(text_lines(rest) =~= seq![this_line] + text_lines(content@.subrange(next as int, cs@.len() as int)));
            }
            assert(all.take(count + 1) =~= all.take(count as int).push(this_line));
            assert(all =~= all.take(count + 1) + text_lines(content@.subrange(next as int, cs@.len() as int)));
        }
        if count > 0 {
            push_char(&mut text, '\n');
        }
        text.append(line.as_str());
        proof {
            let taken = all.take(count + 1);
            assert(taken.drop_last() =~= all.take(count as int));
            assert(taken.last() == this_line);
            if count == 0 {
                assert(text@ =~= join_lines(taken));
            } else {
                assert(text@ =~= join_lines(taken));
            }
        }
        count = count + 1;
        i = if j < cs.len() { j + 1 } else { j };
    }
    proof {
        if count < PREVIEW_LINES {
            assert(content@.subrange(i as int, cs@.len() as int) =~= Seq::<char>::empty());
            assert(all =~= all.take(count as int));
        }
        assert(first_lines(all, PREVIEW_LINES as int) =~= all.take(count as int));
    }
    text
}


/// The extension of the file a path names, as `Path::extension` finds it
/// (empty where it finds none).
pub open spec fn path_extension(p: Seq<char>) -> Seq<char> {
    match path_file_name(p) {
        Some(name) => crate::scan::file_extension(name),
        None => seq![],
    }
}

/// The extension of the file named by the path `p`.
pub fn extension_of_path(p: &str) -> (ext: String)
    ensures
        ext@ == path_extension(p@),
{
    match file_name_of(p) {
        Some(name) => crate::scan::extension_of(name.as_str()),
        None => String::new(),
    }
}

/// Asset kind filter: everything, or only one kind.
#[derive(Clone, Copy, Debug, PartialEq, Eq, Structural)]
pub enum KindFilter {
    All,
    Only(AssetKind),
}

/// An asset is listed under a (lowercase) text filter and a kind filter.
pub open spec fn asset_listed(asset: (Seq<char>, AssetKind), filter_lower: Seq<char>, kind: KindFilter) -> bool {
    &&& (filter_lower.len() == 0 || occurs_in(filter_lower, lowercase(asset.0)))
    &&& (kind matches KindFilter::Only(k) ==> asset.1 == k)
}

/// The indices `0..n` of the listed assets, in order.
pub open spec fn listed_assets_upto(assets: Seq<(Seq<char>, AssetKind)>, filter_lower: Seq<char>, kind: KindFilter, n: nat) -> Seq<int>
    decreases n,
{
    if n == 0 {
        seq![]
    } else if asset_listed(assets[n - 1], filter_lower, kind) {
        listed_assets_upto(assets, filter_lower, kind, (n - 1) as nat).push(n - 1)
    } else {
        listed_assets_upto(assets, filter_lower, kind, (n - 1) as nat)
    }
}

proof fn lemma_listed_assets_members(assets: Seq<(Seq<char>, AssetKind)>, filter_lower: Seq<char>, kind: KindFilter, n: nat, i: int)
    requires
        n <= assets.len(),
    ensures
        listed_assets_upto(assets, filter_lower, kind, n).contains(i) <==> (0 <= i < n && asset_listed(
            assets[i],
            filter_lower,
            kind,
        )),
    decreases n,
{
    if n > 0 {
        let prev = listed_assets_upto(assets, filter_lower, kind, (n - 1) as nat);
        lemma_listed_assets_members(assets, filter_lower, kind, (n - 1) as nat, i);
        lemma_listed_assets_members(assets, filter_lower, kind, (n - 1) as nat, n - 1);
        if asset_listed(assets[n - 1], filter_lower, kind) {
            if prev.push(n - 1).contains(i) {
                let k = choose|k: int| 0 <= k < prev.push(n - 1).len() && #[trigger] prev.push(n - 1)[k] == i;
                if k < prev.len() {
                    assert(prev[k] == i);
                }
            }
            if prev.contains(i) {
                let k = choose|k: int| 0 <= k < prev.len() && #[trigger] prev[k] == i;
                assert(prev.push(n - 1)[k] == i);
            }
            if i == n - 1 {
                assert(prev.push(n - 1)[prev.len() as int] == i);
            }
        }
    }
}

/// The asset list shows asset `i` exactly when its path contains the
/// (lowercased) filter text, ignoring case, or the filter is empty, and —
/// whatever the text filter — its kind is the one the kind filter asks for.
pub proof fn lemma_visible_assets_law(assets: Seq<(Seq<char>, AssetKind)>, filter_lower: Seq<char>, kind: KindFilter, i: int)
    requires
        0 <= i < assets.len(),
    ensures
        listed_assets_upto(assets, filter_lower, kind, assets.len()).contains(i) <==> ((filter_lower.len() == 0
            || exists|p: int|
            0 <= p <= lowercase(assets[i].0).len() - filter_lower.len() && #[trigger] lowercase(assets[i].0).subrange(
                p,
                p + filter_lower.len(),
            ) == filter_lower) && (kind matches KindFilter::Only(k) ==> assets[i].1 == k)),
{
    lemma_listed_assets_members(assets, filter_lower, kind, assets.len(), i);
}

/// What the details pane must do about the cached text preview.
#[derive(Debug)]
pub enum PreviewAction {
    /// The cached preview is current.
    Keep,
    /// Read the file at this path and hand its content to
    /// [`AssetEditor::apply_preview`].
    Read(String),
    /// Drop the preview; the path it now stands for is given.
    Clear(Option<String>),
}

/// Asset Browser & Editor panel state.
pub struct AssetEditor {
    /// Text typed in the filter box.
    pub filter: String,
    /// Active kind filter.
    pub kind_filter: KindFilter,
    /// Index of the selected asset.
    pub selected: Option<usize>,
    /// The assets found by the last scan.
    pub assets: Vec<AssetEntry>,
    /// The root last scanned, to detect when it changes.
    pub scanned_root: Option<String>,
    /// Set by double-click or context menu; read and cleared by the main app
    /// each frame so it can open the file in the Game File Editor.
    pub open_file_request: Option<String>,
    /// Cached read-only text preview of the selected text asset.
    pub preview: Option<String>,
    /// The file for which `preview` was last loaded.
    pub preview_path: Option<String>,
}

impl AssetEditor {
    /// An empty panel.
    pub fn new() -> (e: Self)
        ensures
            e.filter@.len() == 0,
            e.kind_filter == KindFilter::All,
            e.selected is None,
            e.assets@.len() == 0,
            e.scanned_root is None,
            e.open_file_request is None,
            e.preview is None,
            e.preview_path is None,
    {
        AssetEditor {
            filter: String::new(),
            kind_filter: KindFilter::All,
            selected: None,
            assets: Vec::new(),
            scanned_root: None,
            open_file_request: None,
            preview: None,
            preview_path: None,
        }
    }

    /// The text of the list row of asset `i`: its icon and relative path.
    pub fn row_label(&self, i: usize) -> (label: String)
        requires
            i < self.assets@.len(),
        ensures
            label@ == kind_icon(self.assets@[i as int].kind) + " "@ + self.assets@[i as int].relative_path@,
    {
        let a = &self.assets[i];
        let mut label = crate::text::owned(a.icon());
        label.append(" ");
        label.append(a.relative_path.as_str());
        label
    }

    /// The "Type" line of the details pane: the kind's icon and name.
    pub fn type_text(kind: AssetKind) -> (text: String)
        ensures
            text@ == kind_icon(kind) + " "@ + kind_name(kind),
    {
        let mut text = crate::text::owned(kind.icon());
        text.append(" ");
        text.append(kind.name());
        text
    }

    /// The placeholder shown instead of a preview for a non-text asset.
    pub fn thumbnail_text(kind: AssetKind) -> (text: &'static str)
        ensures
            kind == AssetKind::Texture ==> text@ == "🖼 Texture preview (pending)"@,
            kind == AssetKind::Model ==> text@ == "📦 3-D model preview (pending)"@,
            kind == AssetKind::Sound ==> text@ == "🔊 Audio waveform (pending)"@,
            kind == AssetKind::Scene || kind == AssetKind::Other ==> text@ == "Thumbnail preview (pending)"@,
    {
        match kind {
            AssetKind::Texture => "🖼 Texture preview (pending)",
            AssetKind::Model => "📦 3-D model preview (pending)",
            AssetKind::Sound => "🔊 Audio waveform (pending)",
            _ => "Thumbnail preview (pending)",
        }
    }

    /// The note above the list: without a project the user is asked to open
    /// one; after a scan that found nothing the list says so.
    pub fn list_note(&self, has_project: bool) -> (notes: (Option<&'static str>, Option<&'static str>))
        ensures
            !has_project ==> (notes.0 matches Some(s) && s@ == "Open a project to browse its assets."@),
            has_project ==> notes.0 is None,
            self.assets@.len() == 0 && self.scanned_root is Some ==> (notes.1 matches Some(s) && s@
                == "No assets found in the project asset root."@),
            !(self.assets@.len() == 0 && self.scanned_root is Some) ==> notes.1 is None,
    {
        let project_note = if has_project {
            None
        } else {
            Some("Open a project to browse its assets.")
        };
        let list_note = if self.assets.len() == 0 && self.scanned_root.is_some() {
            Some("No assets found in the project asset root.")
        } else {
            None
        };
        (project_note, list_note)
    }

    /// The asset root `root` differs from the one last scanned.
    pub fn needs_scan(&self, root: &String) -> (r: bool)
        ensures
            r == !(self.scanned_root matches Some(s) && s@ == root@),
    {
        match &self.scanned_root {
            Some(s) => !str_eq(s.as_str(), root.as_str()),
            None => true,
        }
    }

    /// Replace the asset list with the assets of `tree`, read from `root`
    /// (4 levels deep), and clear selection and preview.
    pub fn scan(&mut self, root: String, tree: &DirNode)
        ensures
            entry_views(final(self).assets@) == dir_assets(tree.children@, seq![], 0, ASSET_SCAN_DEPTH as int),
            final(self).selected is None,
            final(self).scanned_root == Some(root),
            final(self).preview is None,
            final(self).preview_path is None,
            final(self).filter == old(self).filter,
            final(self).kind_filter == old(self).kind_filter,
            final(self).open_file_request == old(self).open_file_request,
    {
        self.assets = scan_assets(tree, ASSET_SCAN_DEPTH);
        self.selected = None;
        self.scanned_root = Some(root);
        self.preview = None;
        self.preview_path = None;
    }

    /// The absolute path of the asset at `relative_path`, once a root was
    /// scanned.
    pub fn full_path(&self, relative_path: &str) -> (p: Option<String>)
        ensures
            self.scanned_root is None ==> p is None,
            self.scanned_root matches Some(r) ==> p matches Some(s) && s@ == path_join(r@, relative_path@),
    {
        match &self.scanned_root {
            Some(r) => Some(join(r.as_str(), relative_path)),
            None => None,
        }
    }

    /// The "All" kind button: show every kind and clear the selection.
    pub fn show_all_kinds(&mut self)
        ensures
            final(self).kind_filter == KindFilter::All,
            final(self).selected is None,
            final(self).assets == old(self).assets,
    {
        self.kind_filter = KindFilter::All;
        self.selected = None;
    }

    /// A kind button: show only `kind`, or everything again when it was
    /// already the active filter; the selection is cleared.
    pub fn toggle_kind(&mut self, kind: AssetKind)
        ensures
            old(self).kind_filter == KindFilter::Only(kind) ==> final(self).kind_filter == KindFilter::All,
            old(self).kind_filter != KindFilter::Only(kind) ==> final(self).kind_filter == KindFilter::Only(kind),
            final(self).selected is None,
            final(self).assets == old(self).assets,
    {
        let active = self.kind_filter == KindFilter::Only(kind);
        self.kind_filter = if active { KindFilter::All } else { KindFilter::Only(kind) };
        self.selected = None;
    }

    /// The indices of the assets the list shows: those whose path contains
    /// the filter text (ignoring case) and that match the kind filter.
    pub fn visible_assets(&self) -> (shown: Vec<usize>)
        ensures
            crate::ordering::as_ints(shown@) == listed_assets_upto(entry_views(self.assets@), lowercase(self.filter@), self.kind_filter, self.assets@.len()),
    {
        let filter_lower = to_lowercase(self.filter.as_str());
        let no_filter = filter_lower.as_str().unicode_len() == 0;
        let mut shown: Vec<usize> = Vec::new();
        for i in 0..self.assets.len()
            invariant
                filter_lower@ == lowercase(self.filter@),
                no_filter == (filter_lower@.len() == 0),
                crate::ordering::as_ints(shown@) == listed_assets_upto(entry_views(self.assets@), filter_lower@, self.kind_filter, i as nat),
        {
            let a = &self.assets[i];
            let text_ok = no_filter || {
                let path_lower = to_lowercase(a.relative_path.as_str());
                contains(path_lower.as_str(), filter_lower.as_str())
            };
            let kind_ok = match self.kind_filter {
                KindFilter::All => true,
                KindFilter::Only(k) => a.kind == k,
            };
            assert(entry_views(self.assets@)[i as int] == a@);
            if text_ok && kind_ok {
                shown.push(i);
            }
            assert(crate::ordering::as_ints(shown@) =~= listed_assets_upto(entry_views(self.assets@), filter_lower@, self.kind_filter, (i + 1) as nat));
        }
        shown
    }

    /// A click on asset `i` selects it.
    pub fn select(&mut self, i: usize)
        ensures
            final(self).selected == Some(i),
            final(self).assets == old(self).assets,
            final(self).scanned_root == old(self).scanned_root,
            final(self).open_file_request == old(self).open_file_request,
    {
        self.selected = Some(i);
    }

    /// Ask the main app to open asset `i` in the Game File Editor: only text
    /// assets open, and only once a root was scanned.
    pub fn request_open(&mut self, i: usize)
        requires
            i < old(self).assets@.len(),
        ensures
            ({
                let rel = old(self).assets@[i as int].relative_path@;
                if text_extension(lowercase(path_extension(rel))) && old(self).scanned_root is Some {
                    final(self).open_file_request matches Some(p) && p@ == path_join(old(self).scanned_root->0@, rel)
                } else {
                    final(self).open_file_request == old(self).open_file_request
                }
            }),
            final(self).selected == old(self).selected,
            final(self).assets == old(self).assets,
            final(self).scanned_root == old(self).scanned_root,
    {
        let ext = extension_of_path(self.assets[i].relative_path.as_str());
        if is_text_ext(ext.as_str()) {
            let fp = self.full_path(self.assets[i].relative_path.as_str());
            if fp.is_some() {
                self.open_file_request = fp;
            }
        }
    }

    /// A double-click on asset `i`: select it, and open it when it is text.
    pub fn double_click(&mut self, i: usize)
        requires
            i < old(self).assets@.len(),
        ensures
            final(self).selected == Some(i),
            ({
                let rel = old(self).assets@[i as int].relative_path@;
                if text_extension(lowercase(path_extension(rel))) && old(self).scanned_root is Some {
                    final(self).open_file_request matches Some(p) && p@ == path_join(old(self).scanned_root->0@, rel)
                } else {
                    final(self).open_file_request == old(self).open_file_request
                }
            }),
            final(self).assets == old(self).assets,
            final(self).scanned_root == old(self).scanned_root,
    {
        self.selected = Some(i);
        self.request_open(i);
    }

    /// What the details pane must do about the preview of the selected asset:
    /// a text asset whose path differs from the cached one is read; a
    /// non-text asset with a different path drops the preview.
    pub fn preview_step(&self) -> (a: PreviewAction)
        ensures
            ({
                match self.selected {
                    Some(i) if i < self.assets@.len() => {
                        let rel = self.assets@[i as int].relative_path@;
                        let full: Option<Seq<char>> = match self.scanned_root {
                            Some(r) => Some(path_join(r@, rel)),
                            None => None,
                        };
                        let cached: Option<Seq<char>> = match self.preview_path {
                            Some(p) => Some(p@),
                            None => None,
                        };
                        if cached == full {
                            a is Keep
                        } else if text_extension(lowercase(path_extension(rel))) && full is Some {
                            a matches PreviewAction::Read(p) && p@ == full->0
                        } else {
                            a matches PreviewAction::Clear(p) && (p is None <==> full is None) && (p is Some ==> p->0@ == full->0)
                        }
                    },
                    _ => a is Keep,
                }
            }),
    {
        let i = match self.selected {
            Some(i) => i,
            None => return PreviewAction::Keep,
        };
        if i >= self.assets.len() {
            return PreviewAction::Keep;
        }
        let rel = self.assets[i].relative_path.as_str();
        let full = self.full_path(rel);
        let same = match (&self.preview_path, &full) {
            (Some(a), Some(b)) => str_eq(a.as_str(), b.as_str()),
            (None, None) => true,
            _ => false,
        };
        if same {
            return PreviewAction::Keep;
        }
        let ext = extension_of_path(rel);
        if is_text_ext(ext.as_str()) {
            match full {
                Some(p) => PreviewAction::Read(p),
                None => PreviewAction::Clear(None),
            }
        } else {
            PreviewAction::Clear(full)
        }
    }

    /// Store the preview for `path`: the first 20 lines of `content` when the
    /// file could be read, else no preview.
    pub fn apply_preview(&mut self, path: Option<String>, content: Option<String>)
        ensures
            final(self).preview_path == path,
            content is None ==> final(self).preview is None,
            content matches Some(c) ==> final(self).preview matches Some(p) && p@ == join_lines(first_lines(text_lines(c@), PREVIEW_LINES as int)),
            final(self).selected == old(self).selected,
            final(self).assets == old(self).assets,
    {
        self.preview = match content {
            Some(c) => Some(preview_text(c.as_str())),
            None => None,
        };
        self.preview_path = path;
    }
}

} // verus!
