//! The master editor application: tabs, theme, the recent-projects list and
//! the steps of opening a project.

use vstd::prelude::*;

use crate::asset_editor::AssetEditor;
use crate::build_panel::{log_view, trigger_line, BuildToolPanel};
use crate::build_runner::{BuildCommand, BuildRunner};
use crate::gamefile::GameFileEditor;
use crate::browser::WorkspaceBrowser;
use crate::panel::PanelContext;
use crate::paths::{join, path_join};
use crate::project::WorkspaceManifest;
use crate::text::{chars_of, push_chars, str_eq, trim, trimmed};

verus! {

/// Identifies each dockable panel.
#[derive(Clone, Copy, Debug, PartialEq, Eq, Hash, Structural)]
pub enum Tab {
    WorkspaceBrowser,
    Scene,
    Asset,
    Material,
    VLogic,
    Ui,
    Animation,
    Data,
    Build,
    AiTool,
    GameFile,
}

/// The title of a tab.
pub open spec fn tab_label(tab: Tab) -> Seq<char> {
    match tab {
        Tab::WorkspaceBrowser => "📁 Workspace"@,
        Tab::Scene => "🌐 Scene"@,
        Tab::Asset => "🖼 Assets"@,
        Tab::Material => "🎨 Material"@,
        Tab::VLogic => "🔗 V-Logic"@,
        Tab::Ui => "📐 UI"@,
        Tab::Animation => "🎬 Animation"@,
        Tab::Data => "📋 Data"@,
        Tab::Build => "🔨 Build"@,
        Tab::AiTool => "🤖 AI Tool"@,
        Tab::GameFile => "📝 File Editor"@,
    }
}

impl Tab {
    /// The title shown in the tab header and the View menu.
    pub fn label(&self) -> (label: &'static str)
        ensures
            label@ == tab_label(*self),
    {
        match self {
            Tab::WorkspaceBrowser => "📁 Workspace",
            Tab::Scene => "🌐 Scene",
            Tab::Asset => "🖼 Assets",
            Tab::Material => "🎨 Material",
            Tab::VLogic => "🔗 V-Logic",
            Tab::Ui => "📐 UI",
            Tab::Animation => "🎬 Animation",
            Tab::Data => "📋 Data",
            Tab::Build => "🔨 Build",
            Tab::AiTool => "🤖 AI Tool",
            Tab::GameFile => "📝 File Editor",
        }
    }
}

/// Every tab, in the order of the View menu.
pub open spec fn all_tabs_spec() -> Seq<Tab> {
    seq![
        Tab::WorkspaceBrowser,
        Tab::Scene,
        Tab::Asset,
        Tab::Material,
        Tab::VLogic,
        Tab::Ui,
        Tab::Animation,
        Tab::Data,
        Tab::Build,
        Tab::AiTool,
        Tab::GameFile,
    ]
}

/// Every tab, in the order of the View menu.
pub fn all_tabs() -> (tabs: Vec<Tab>)
    ensures
        tabs@ == all_tabs_spec(),
{
    let tabs = vec![
        Tab::WorkspaceBrowser,
        Tab::Scene,
        Tab::Asset,
        Tab::Material,
        Tab::VLogic,
        Tab::Ui,
        Tab::Animation,
        Tab::Data,
        Tab::Build,
        Tab::AiTool,
        Tab::GameFile,
    ];
    assert(tabs@ =~= all_tabs_spec());
    tabs
}

/// Editor colour theme; dark by default.
#[derive(Clone, Copy, Debug, PartialEq, Eq, Structural)]
pub enum Theme {
    Dark,
    Light,
}

impl Default for Theme {
    fn default() -> (t: Self)
        ensures
            t == Theme::Dark,
    {
        Theme::Dark
    }
}

impl Theme {
    /// The label of the theme in the View menu.
    pub fn label(self) -> (label: &'static str)
        ensures
            self == Theme::Dark ==> label@ == "🌙 Dark"@,
            self == Theme::Light ==> label@ == "☀ Light"@,
    {
        match self {
            Theme::Dark => "🌙 Dark",
            Theme::Light => "☀ Light",
        }
    }
}

/// How many recent projects are remembered.
pub const MAX_RECENT: usize = 5;

/// At most the first `n` elements of `s`.
pub open spec fn at_most<A>(s: Seq<A>, n: int) -> Seq<A> {
    if s.len() <= n {
        s
    } else {
        s.take(n)
    }
}

/// The texts of a list of strings.
pub open spec fn texts(v: Seq<String>) -> Seq<Seq<char>> {
    v.map_values(|s: String| s@)
}

/// The recent list after opening `p`: `p` first, then the earlier entries
/// other than `p`, at most five in all.
pub open spec fn recent_after(recent: Seq<Seq<char>>, p: Seq<char>) -> Seq<Seq<char>> {
    at_most(seq![p] + recent.filter(differs_from(p)), MAX_RECENT as int)
}

/// No element of `s` occurs twice.
pub open spec fn no_repeats(s: Seq<Seq<char>>) -> bool {
    forall|i: int, j: int| 0 <= i < j < s.len() ==> #[trigger] s[i] != #[trigger] s[j]
}

proof fn lemma_filter_keeps(s: Seq<Seq<char>>, p: Seq<char>)
    ensures
        forall|k: int| 0 <= k < s.filter(differs_from(p)).len() ==> #[trigger] s.filter(differs_from(p))[k] != p
            && s.contains(s.filter(differs_from(p))[k]),
        no_repeats(s) ==> no_repeats(s.filter(differs_from(p))),
        s.filter(differs_from(p)).len() <= s.len(),
    decreases s.len(),
{
    reveal(Seq::filter);
    if s.len() > 0 {
        let rest = s.drop_last();
        lemma_filter_keeps(rest, p);
        let f = s.filter(differs_from(p));
        let fr = rest.filter(differs_from(p));
        assert forall|k: int| 0 <= k < f.len() implies #[trigger] f[k] != p && s.contains(f[k]) by {
            if k < fr.len() {
                assert(f[k] == fr[k]);
                let i = choose|i: int| 0 <= i < rest.len() && rest[i] == fr[k];
                assert(s[i] == rest[i]);
            } else {
                assert(s[s.len() - 1] == f[k]);
            }
        }
        if no_repeats(s) {
            assert(no_repeats(rest)) by {
                assert forall|i: int, j: int| 0 <= i < j < rest.len() implies #[trigger] rest[i] != #[trigger] rest[j] by {
                    assert(rest[i] == s[i] && rest[j] == s[j]);
                }
            }
            assert forall|i: int, j: int| 0 <= i < j < f.len() implies #[trigger] f[i] != #[trigger] f[j] by {
                if j >= fr.len() {
                    assert(f[i] == fr[i]);
                    let a = choose|a: int| 0 <= a < rest.len() && rest[a] == fr[i];
                    assert(s[a] == rest[a]);
                    assert(f[j] == s[s.len() - 1]);
                } else {
                    assert(f[i] == fr[i] && f[j] == fr[j]);
                }
            }
        }
    }
}

/// Opening a project puts it first, keeps at most five paths, lists the
/// earlier paths after it in their old order, and never lists a path twice
/// when the earlier list did not.
pub proof fn lemma_recent_after(recent: Seq<Seq<char>>, p: Seq<char>)
    ensures
        recent_after(recent, p).len() >= 1,
        recent_after(recent, p)[0] == p,
        recent_after(recent, p).len() <= MAX_RECENT,
        forall|k: int| 1 <= k < recent_after(recent, p).len() ==> #[trigger] recent_after(recent, p)[k] != p
            && recent.contains(recent_after(recent, p)[k]),
        no_repeats(recent) ==> no_repeats(recent_after(recent, p)),
{
    lemma_filter_keeps(recent, p);
    let full = seq![p] + recent.filter(differs_from(p));
    let r = recent_after(recent, p);
    assert forall|k: int| 1 <= k < r.len() implies #[trigger] r[k] != p && recent.contains(r[k]) by {
        assert(r[k] == full[k]);
        assert(full[k] == recent.filter(differs_from(p))[k - 1]);
    }
    if no_repeats(recent) {
        assert forall|i: int, j: int| 0 <= i < j < r.len() implies #[trigger] r[i] != #[trigger] r[j] by {
            assert(r[i] == full[i] && r[j] == full[j]);
            if i > 0 {
                assert(full[i] == recent.filter(differs_from(p))[i - 1]);
                assert(full[j] == recent.filter(differs_from(p))[j - 1]);
            } else {
                assert(full[j] == recent.filter(differs_from(p))[j - 1]);
            }
        }
    }
}

/// The test "is not `p`".
pub open spec fn differs_from(p: Seq<char>) -> spec_fn(Seq<char>) -> bool {
    |x: Seq<char>| x != p
}

/// Record `path` as the most recently opened project: earlier entries equal
/// to it are dropped, it goes first, and the list keeps five entries.
pub fn record_recent(recent: &mut Vec<String>, path: String)
    ensures
        texts(final(recent)@) == recent_after(texts(old(recent)@), path@),
{
    let ghost p = path@;
    let ghost pred = differs_from(p);
    let mut kept: Vec<String> = Vec::new();
    kept.push(crate::text::owned(path.as_str()));
    assert(texts(recent@).take(0) =~= Seq::<Seq<char>>::empty());
    reveal(Seq::filter);
    assert(texts(kept@) =~= seq![p] + texts(recent@).take(0).filter(pred));
    for k in 0..recent.len()
        invariant
            p == path@,
            pred == differs_from(p),
            texts(kept@) == seq![p] + texts(recent@).take(k as int).filter(pred),
    {
        let ghost prev = texts(kept@);
        proof {
            assert(texts(recent@).take(k + 1) =~= texts(recent@).take(k as int).push(recent@[k as int]@));
            reveal(Seq::filter);
            assert(texts(recent@).take(k + 1).drop_last() =~= texts(recent@).take(k as int));
        }
        let ghost x = recent@[k as int]@;
        let ghost t = texts(recent@).take(k + 1);
        assert(t.last() == x);
        assert(pred(x) == (x != p));
        assert(t.filter(pred) == if pred(x) { t.drop_last().filter(pred).push(x) } else { t.drop_last().filter(pred) });
        if !str_eq(recent[k].as_str(), path.as_str()) {
            kept.push(crate::text::owned(recent[k].as_str()));
            assert(texts(kept@) =~= prev.push(x));
        }
        assert(texts(kept@) =~= seq![p] + texts(recent@).take(k + 1).filter(pred));
    }
    assert(texts(recent@).take(recent@.len() as int) =~= texts(recent@));
    let ghost full = texts(kept@);
    assert(full == seq![p] + texts(old(recent)@).filter(pred));
    if kept.len() > MAX_RECENT {
        let ghost before_cut = kept@;
        kept.truncate(MAX_RECENT);
        assert(kept@ =~= before_cut.take(MAX_RECENT as int));
        assert(texts(kept@) =~= full.take(MAX_RECENT as int));
    }
    assert(texts(kept@) =~= recent_after(texts(old(recent)@), p));
    *recent = kept;
}

/// The file the recent-projects list is kept in, under the user's home
/// directory: `$HOME/.config/novaforge-workspace/recent.toml`.
pub fn config_path(home: Option<&String>) -> (p: Option<String>)
    ensures
        home is None ==> p is None,
        home matches Some(h) ==> (p matches Some(s) && s@ == path_join(
            path_join(path_join(h@, ".config"@), "novaforge-workspace"@),
            "recent.toml"@,
        )),
{
    match home {
        Some(h) => {
            let base = join(h.as_str(), ".config");
            let dir = join(base.as_str(), "novaforge-workspace");
            Some(join(dir.as_str(), "recent.toml"))
        },
        None => None,
    }
}

/// A path as the Recent Projects menu shows it: paths longer than 60
/// characters are cut to `…` and their last 57 characters.
pub open spec fn display_path(p: Seq<char>) -> Seq<char> {
    if p.len() > 60 {
        seq!['…'] + p.subrange(p.len() - 57, p.len() as int)
    } else {
        p
    }
}

/// Shorten a long path for display in the Recent Projects menu.
pub fn shorten_for_display(path: &str) -> (s: String)
    ensures
        s@ == display_path(path@),
{
    let cs = chars_of(path);
    if cs.len() > 60 {
        let mut tail: Vec<char> = Vec::new();
        let start = cs.len() - 57;
        for i in start..cs.len()
            invariant
                cs@ == path@,
                start == cs@.len() - 57,
                tail@ == path@.subrange(start as int, i as int),
        {
            tail.push(cs[i]);
            assert(path@.subrange(start as int, i + 1) =~= path@.subrange(start as int, i as int).push(path@[i as int]));
        }
        let mut s = crate::text::owned("…");
        push_chars(&mut s, &tail);
        proof {
            reveal_strlit("…");
        }
        assert(s@ =~= display_path(path@));
        s
    } else {
        crate::text::owned(path)
    }
}

/// What the keyboard shortcuts of one frame leave for the host to do.
pub struct ShortcutEffects {
    /// The file and the text that Ctrl+S asks to write.
    pub write: Option<(String, String)>,
    /// The Build tab must be shown.
    pub show_build_tab: bool,
    /// The runner of the debug build that Ctrl+B requested, to start.
    pub debug_build: Option<BuildRunner>,
    /// The runner of the client run that Ctrl+R requested, to start.
    pub run: Option<BuildRunner>,
}

/// State of the master editor, apart from its docking layout and panels.
pub struct EditorApp {
    /// The open project.
    pub project: Option<WorkspaceManifest>,
    /// The project path typed in the File menu.
    pub project_path_input: String,
    /// The context handed to the panels.
    pub panel_ctx: PanelContext,
    /// Status bar message.
    pub status: String,
    /// The colour theme.
    pub theme: Theme,
    /// Paths of the last 5 successfully opened projects, most recent first.
    pub recent_projects: Vec<String>,
}

impl EditorApp {
    /// A fresh editor with no project and the given recent-projects list.
    pub fn new(recent_projects: Vec<String>) -> (app: Self)
        ensures
            app.project is None,
            app.project_path_input@.len() == 0,
            app.panel_ctx.project_name is None,
            app.panel_ctx.nova_forge_path is None,
            app.panel_ctx.asset_root is None,
            app.panel_ctx.selected_file is None,
            app.status@ == "No project loaded."@,
            app.theme == Theme::Dark,
            app.recent_projects == recent_projects,
    {
        EditorApp {
            project: None,
            project_path_input: String::new(),
            panel_ctx: PanelContext::default(),
            status: crate::text::owned("No project loaded."),
            theme: Theme::Dark,
            recent_projects,
        }
    }

    /// The first step of opening a project: the typed path, trimmed; a
    /// blank path is refused with a status message.
    pub fn project_path(&mut self) -> (p: Option<String>)
        ensures
            trimmed(old(self).project_path_input@).len() == 0 ==> p is None && final(self).status@
                == "Please enter a project path."@,
            trimmed(old(self).project_path_input@).len() > 0 ==> (p matches Some(s) && s@ == trimmed(
                old(self).project_path_input@,
            ) && final(self).status == old(self).status),
            final(self).project == old(self).project,
            final(self).recent_projects == old(self).recent_projects,
            final(self).project_path_input == old(self).project_path_input,
            final(self).panel_ctx == old(self).panel_ctx,
            final(self).theme == old(self).theme,
    {
        let path = trim(self.project_path_input.as_str());
        if path.as_str().unicode_len() == 0 {
            self.status = crate::text::owned("Please enter a project path.");
            return None;
        }
        Some(path)
    }

    /// The project part of the status bar: `Project: <name>`, or
    /// `Project: None` without a project.
    pub fn status_bar_project(&self) -> (line: String)
        ensures
            self.panel_ctx.project_name is None ==> line@ == "Project: None"@,
            self.panel_ctx.project_name matches Some(n) ==> line@ == "Project: "@ + n@,
    {
        let mut line = crate::text::owned("Project: ");
        match &self.panel_ctx.project_name {
            Some(n) => line.append(n.as_str()),
            None => line.append("None"),
        }
        proof {
            reveal_strlit("Project: None");
            reveal_strlit("Project: ");
            reveal_strlit("None");
        }
        line
    }

    /// The application tried to save the open project; the status reports
    /// the outcome.
    pub fn project_saved(&mut self, result: Result<(), String>)
        ensures
            result is Ok ==> final(self).status@ == "Project saved."@,
            result matches Err(e) ==> final(self).status@ == "Save error: "@ + e@,
            final(self).project == old(self).project,
            final(self).recent_projects == old(self).recent_projects,
            final(self).theme == old(self).theme,
    {
        match result {
            Ok(()) => {
                self.status = crate::text::owned("Project saved.");
            },
            Err(e) => {
                let mut status = crate::text::owned("Save error: ");
                status.append(e.as_str());
                self.status = status;
            },
        }
    }

    /// "Reset Layout" restores the default arrangement of the panels. The
    /// arrangement belongs to the host's docking area; the editor's own
    /// state — project, panel context, status, theme, recent projects, the
    /// typed path — stays as it is.
    pub fn reset_layout(&mut self)
        ensures
            *final(self) == *old(self),
    {
    }

    /// The keyboard shortcuts of one frame, in this order: Ctrl+S saves the
    /// open file when it has unsaved changes; Ctrl+B requests a debug build
    /// and Ctrl+R a client run, each showing the Build tab, with the
    /// project's Nova-Forge path.
    pub fn handle_shortcuts(
        &self,
        game_file: &mut GameFileEditor,
        build: &mut BuildToolPanel,
        ctrl_s: bool,
        ctrl_b: bool,
        ctrl_r: bool,
    ) -> (fx: ShortcutEffects)
        ensures
            !ctrl_s ==> fx.write is None && *final(game_file) == *old(game_file),
            ctrl_s ==> {
                &&& final(game_file).open_path == old(game_file).open_path
                &&& final(game_file).content == old(game_file).content
                &&& final(game_file).dirty == old(game_file).dirty
                &&& final(game_file).last_ctx_file == old(game_file).last_ctx_file
                &&& !old(game_file).dirty ==> fx.write is None && final(game_file).status == old(game_file).status
                &&& old(game_file).dirty && old(game_file).open_path is None ==> fx.write is None
                    && final(game_file).status@ == "No file open."@
                &&& old(game_file).dirty ==> (old(game_file).open_path matches Some(p) ==> (fx.write matches Some(w)
                    && w.0@ == p@ && w.1@ == old(game_file).content@ && final(game_file).status == old(game_file).status))
            },
            fx.show_build_tab == (ctrl_b || ctrl_r),
            log_view(final(build).log_lines@) == log_view(old(build).log_lines@) + (if ctrl_b {
                seq![trigger_line(BuildCommand::Build, self.panel_ctx.nova_forge_path is Some)]
            } else {
                Seq::empty()
            }) + (if ctrl_r {
                seq![trigger_line(BuildCommand::Run, self.panel_ctx.nova_forge_path is Some)]
            } else {
                Seq::empty()
            }),
            final(build).running == (old(build).running || ((ctrl_b || ctrl_r) && self.panel_ctx.nova_forge_path is Some)),
            (ctrl_b || ctrl_r) && self.panel_ctx.nova_forge_path is Some ==> (final(build).runner matches Some(r)
                && r.nova_forge_path@ == self.panel_ctx.nova_forge_path->0@),
            !((ctrl_b || ctrl_r) && self.panel_ctx.nova_forge_path is Some) ==> final(build).runner == old(build).runner,
            final(build).auto_scroll == old(build).auto_scroll,
            ctrl_b && self.panel_ctx.nova_forge_path is Some ==> (fx.debug_build matches Some(r)
                && r.nova_forge_path@ == self.panel_ctx.nova_forge_path->0@),
            !(ctrl_b && self.panel_ctx.nova_forge_path is Some) ==> fx.debug_build is None,
            ctrl_r && self.panel_ctx.nova_forge_path is Some ==> (fx.run matches Some(r)
                && r.nova_forge_path@ == self.panel_ctx.nova_forge_path->0@),
            !(ctrl_r && self.panel_ctx.nova_forge_path is Some) ==> fx.run is None,
    {
        let write = if ctrl_s {
            game_file.save_if_dirty()
        } else {
            None
        };
        let path = self.panel_ctx.nova_forge_path.as_ref();
        let ghost log0 = log_view(build.log_lines@);
        let debug_build = if ctrl_b {
            build.trigger(BuildCommand::Build, path)
        } else {
            None
        };
        let ghost log1 = log_view(build.log_lines@);
        let run = if ctrl_r {
            build.trigger(BuildCommand::Run, path)
        } else {
            None
        };
        proof {
            reveal_strlit("--- ");
            assert(log1 =~= log0 + (if ctrl_b {
                seq![trigger_line(BuildCommand::Build, self.panel_ctx.nova_forge_path is Some)]
            } else {
                Seq::empty()
            }));
            assert(log_view(build.log_lines@) =~= log1 + (if ctrl_r {
                seq![trigger_line(BuildCommand::Run, self.panel_ctx.nova_forge_path is Some)]
            } else {
                Seq::empty()
            }));
        }
        ShortcutEffects { write, show_build_tab: ctrl_b || ctrl_r, debug_build, run }
    }

    /// The per-frame routing between panels: the file selected in the
    /// workspace browser becomes the panels' selected file, unless the asset
    /// panel asked to open a file, which then takes its place. Both open
    /// requests are consumed; the result tells whether the File Editor tab
    /// must be shown.
    pub fn route_file_requests(&mut self, browser: &mut WorkspaceBrowser, assets: &mut AssetEditor) -> (show_file_editor: bool)
        ensures
            show_file_editor == (old(browser).open_file_request is Some || old(assets).open_file_request is Some),
            final(browser).open_file_request is None,
            final(assets).open_file_request is None,
            old(assets).open_file_request matches Some(p) ==> final(self).panel_ctx.selected_file == Some(p),
            old(assets).open_file_request is None ==> match final(self).panel_ctx.selected_file {
                Some(f) => old(browser).root is Some && old(browser).selected is Some
                    && old(browser).selected->0 < old(browser).entries@.len()
                    && !old(browser).entries@[old(browser).selected->0 as int].is_dir
                    && f@ == path_join(old(browser).root->0@, old(browser).entries@[old(browser).selected->0 as int].path@),
                None => old(browser).root is None || old(browser).selected is None
                    || old(browser).selected->0 >= old(browser).entries@.len()
                    || old(browser).entries@[old(browser).selected->0 as int].is_dir,
            },
            final(browser).entries == old(browser).entries,
            final(browser).selected == old(browser).selected,
            final(browser).root == old(browser).root,
            final(assets).assets == old(assets).assets,
            final(assets).selected == old(assets).selected,
            final(self).panel_ctx.project_name == old(self).panel_ctx.project_name,
            final(self).panel_ctx.nova_forge_path == old(self).panel_ctx.nova_forge_path,
            final(self).panel_ctx.asset_root == old(self).panel_ctx.asset_root,
            final(self).project == old(self).project,
            final(self).status == old(self).status,
    {
        self.panel_ctx.selected_file = browser.selected_absolute_path();
        let from_browser = browser.open_file_request.is_some();
        browser.open_file_request = None;
        let from_assets = assets.open_file_request.is_some();
        if let Some(p) = assets.open_file_request.take() {
            self.panel_ctx.selected_file = Some(p);
        }
        from_browser || from_assets
    }

    /// The last step of opening the project at `path`: on success the
    /// panels see the project's paths, the status names it and it heads the
    /// recent list; on failure the status shows the error.
    pub fn project_loaded(&mut self, path: String, result: Result<WorkspaceManifest, String>)
        ensures
            result matches Ok(m) ==> {
                &&& final(self).project == Some(m)
                &&& final(self).panel_ctx.project_name matches Some(n) && n@ == m.project_name@
                &&& final(self).panel_ctx.nova_forge_path matches Some(n) && n@ == m.nova_forge_path@
                &&& final(self).panel_ctx.asset_root matches Some(n) && n@ == m.asset_root@
                &&& final(self).panel_ctx.selected_file is None
                &&& final(self).status@ == "Project: "@ + m.project_name@
                &&& texts(final(self).recent_projects@) == recent_after(texts(old(self).recent_projects@), path@)
            },
            result matches Err(e) ==> {
                &&& final(self).status@ == "Error: "@ + e@
                &&& final(self).project == old(self).project
                &&& final(self).recent_projects == old(self).recent_projects
                &&& final(self).panel_ctx == old(self).panel_ctx
            },
            final(self).theme == old(self).theme,
            final(self).project_path_input == old(self).project_path_input,
    {
        match result {
            Ok(manifest) => {
                self.panel_ctx = PanelContext {
                    project_name: Some(crate::text::owned(manifest.project_name.as_str())),
                    nova_forge_path: Some(crate::text::owned(manifest.nova_forge_path.as_str())),
                    asset_root: Some(crate::text::owned(manifest.asset_root.as_str())),
                    selected_file: None,
                };
                let mut status = crate::text::owned("Project: ");
                status.append(manifest.project_name.as_str());
                self.status = status;
                self.project = Some(manifest);
                record_recent(&mut self.recent_projects, path);
            },
            Err(e) => {
                let mut status = crate::text::owned("Error: ");
                status.append(e.as_str());
                self.status = status;
            },
        }
    }
}

} // verus!
