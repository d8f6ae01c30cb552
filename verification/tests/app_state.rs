use novaforge::build_panel::{BuildToolPanel, LogLevel};
use novaforge::gamefile::GameFileEditor;
use novaforge::asset_editor::AssetEditor;
use novaforge::browser::WorkspaceBrowser;
use novaforge::scan::DirNode;
use novaforge::canvas::{
    anim_path, brightened, copy_name, entity_name, pie_action, pie_slice_color, scene_path,
    widget_caption, widget_count_text, GizmoMode, PieAction, UiCanvas, UiWidget, WidgetKind,
};
use novaforge::editor_app::{
    all_tabs, config_path, record_recent, shorten_for_display, EditorApp, Tab, Theme,
};
use novaforge::graph::{drag_start, DragMode, LogicGraph, MaterialGraph, Wire};
use novaforge::launcher::LauncherApp;
use novaforge::panel::PanelContext;
use novaforge::project::WorkspaceManifest;

#[test]
fn tabs_and_theme_labels() {
    let tabs = all_tabs();
    assert_eq!(tabs.len(), 11);
    assert_eq!(tabs[0], Tab::WorkspaceBrowser);
    assert_eq!(Tab::GameFile.label(), "📝 File Editor");
    assert_eq!(Tab::Build.label(), "🔨 Build");
    assert_eq!(Theme::default(), Theme::Dark);
    assert_eq!(Theme::Light.label(), "☀ Light");
}

#[test]
fn recent_list_moves_to_front_without_duplicates() {
    let mut recent: Vec<String> = ["a", "b", "c", "d", "e"].iter().map(|s| s.to_string()).collect();
    record_recent(&mut recent, "c".to_string());
    assert_eq!(recent, vec!["c", "a", "b", "d", "e"]);
    record_recent(&mut recent, "f".to_string());
    assert_eq!(recent, vec!["f", "c", "a", "b", "d"]);
    record_recent(&mut recent, "f".to_string());
    assert_eq!(recent, vec!["f", "c", "a", "b", "d"]);
    let mut empty: Vec<String> = Vec::new();
    record_recent(&mut empty, "x".to_string());
    assert_eq!(empty, vec!["x"]);
}

#[test]
fn config_and_display_paths() {
    let home = "/home/u".to_string();
    assert_eq!(config_path(Some(&home)).as_deref(), Some("/home/u/.config/novaforge-workspace/recent.toml"));
    assert!(config_path(None).is_none());
    let long: String = "x".repeat(70);
    let short = shorten_for_display(&long);
    assert_eq!(short.chars().count(), 58);
    assert!(short.starts_with('…'));
    assert_eq!(shorten_for_display("short/path"), "short/path");
    let sixty: String = "é".repeat(60);
    assert_eq!(shorten_for_display(&sixty), sixty);
}

#[test]
fn editor_app_open_project() {
    let mut app = EditorApp::new(Vec::new());
    assert_eq!(app.status, "No project loaded.");
    app.project_path_input = "   ".to_string();
    assert!(app.project_path().is_none());
    assert_eq!(app.status, "Please enter a project path.");
    app.project_path_input = "  /p/novaforge.workspace.toml ".to_string();
    let path = app.project_path().unwrap();
    assert_eq!(path, "/p/novaforge.workspace.toml");
    app.project_loaded(path.clone(), Err("I/O error: missing".to_string()));
    assert_eq!(app.status, "Error: I/O error: missing");
    assert!(app.recent_projects.is_empty());
    app.project_loaded(path.clone(), Ok(WorkspaceManifest::default()));
    assert_eq!(app.status, "Project: My NovaForge Project");
    assert_eq!(app.panel_ctx.asset_root.as_deref(), Some("../Nova-Forge/assets"));
    assert_eq!(app.recent_projects, vec![path]);
}

#[test]
fn launcher_actions() {
    let mut app = LauncherApp::default();
    assert!(app.project_line().is_none());
    assert!(app.play_target().is_none());
    assert_eq!(app.status, "No project loaded. Open a novaforge.workspace.toml first.");
    assert!(app.server_target().is_none());
    app.project_path_input = "".to_string();
    assert!(app.project_path().is_none());
    assert_eq!(app.status, "Please enter a path.");
    app.load_project("/p".to_string(), Err("TOML parse error: x".to_string()));
    assert_eq!(app.status, "Failed to load project: TOML parse error: x");
    app.load_project("/p".to_string(), Ok(WorkspaceManifest::default()));
    assert_eq!(app.status, "Opened: My NovaForge Project");
    assert_eq!(app.project_line().as_deref(), Some("Project: My NovaForge Project"));
    assert_eq!(app.play_target().as_deref(), Some("../Nova-Forge/target/release/nova-forge-voxygen"));
    assert_eq!(app.server_target().as_deref(), Some("../Nova-Forge/nova-forge.sh"));
    app.play_started("bin", Ok(()));
    assert_eq!(app.status, "Launched: bin");
    app.play_started("bin", Err("denied".to_string()));
    assert_eq!(app.status, "Error launching game: denied");
    app.server_started(Ok(()));
    assert_eq!(app.status, "Server started.");
    app.server_started(Err("x".to_string()));
    assert_eq!(app.status, "Error launching server: x");
    app.editors_started(None);
    assert_eq!(app.status, "novaforge-editors not found. Run `cargo run -p novaforge-editors` directly.");
    app.editors_started(Some(Ok(())));
    assert_eq!(app.status, "Editor suite launched.");
    app.editors_started(Some(Err("e".to_string())));
    assert_eq!(app.status, "Error: e");
}

#[test]
fn logic_graph_delete_renumbers_edges() {
    let mut g = LogicGraph::from_parts(vec!["a", "b", "c", "d"], vec![(0, 1), (1, 2), (1, 3)], 4);
    g.connect(1, 2);
    assert_eq!(g.edges, vec![(0, 1), (1, 2), (1, 3)]);
    g.connect(2, 0);
    assert_eq!(g.edges.len(), 4);
    g.select(1);
    assert_eq!(g.delete_selected(), Some("b"));
    assert_eq!(g.nodes, vec!["a", "c", "d"]);
    assert_eq!(g.edges, vec![(1, 0)]);
    assert_eq!(g.selected, Some(1));
    g.select(2);
    g.delete_selected();
    assert_eq!(g.selected, Some(1));
    let id = g.take_id();
    assert_eq!(id, 4);
    g.push_node("e");
    assert_eq!(g.selected, Some(2));
    g.clear_edges();
    assert!(g.edges.is_empty());
}

#[test]
fn material_graph_one_wire_per_input() {
    let wires = vec![
        Wire { from_node: 0, to_node: 1, to_input: 0 },
        Wire { from_node: 1, to_node: 2, to_input: 0 },
    ];
    let mut g = MaterialGraph::from_parts(vec!["tex", "mul", "out"], vec![0, 1, 2], wires, 3);
    g.connect(0, 2, 0);
    assert_eq!(g.wires.len(), 2);
    g.connect(0, 2, 1);
    assert_eq!(g.wires.len(), 3);
    g.select(0);
    g.delete_selected();
    assert_eq!(g.wires, vec![Wire { from_node: 0, to_node: 1, to_input: 0 }]);
    assert_eq!(g.selected, Some(0));
    g.delete_selected();
    g.delete_selected();
    assert!(g.nodes.is_empty());
    assert_eq!(g.selected, None);
    assert_eq!(g.delete_selected(), None);
}

#[test]
fn canvas_helpers() {
    assert_eq!(GizmoMode::default(), GizmoMode::Translate);
    assert_eq!(pie_action(1), PieAction::SetGizmo(GizmoMode::Rotate));
    assert_eq!(pie_action(3), PieAction::AddEntity);
    assert_eq!(pie_action(5), PieAction::Delete);
    assert_eq!(pie_action(6), PieAction::Nothing);
    assert_eq!(entity_name(3), "Entity 3");
    assert_eq!(copy_name("Player Spawn"), "Copy of Player Spawn");
    assert_eq!(pie_slice_color(4, false), (70, 60, 45));
    assert_eq!(brightened((200, 10, 185)), (255, 80, 255));
    assert_eq!(WidgetKind::Button.label(), "Button");
    assert_eq!(WidgetKind::Label.new_widget_label(3), "Label 4");
    assert_eq!(widget_count_text(3), "3 widgets");
    assert_eq!(WidgetKind::Label.default_size(), (100, 20));
    assert_eq!(WidgetKind::Button.fill_color(), (60, 50, 80));
    assert_eq!(widget_caption(WidgetKind::Panel, "HUD Panel"), "[Panel] HUD Panel");
    let ctx = PanelContext { asset_root: Some("/a".to_string()), ..PanelContext::default() };
    assert_eq!(scene_path(&ctx).as_deref(), Some("/a/scenes/scene.toml"));
    assert_eq!(anim_path(&ctx).as_deref(), Some("/a/animations/animation.toml"));
    assert!(scene_path(&PanelContext::default()).is_none());
}

#[test]
fn editor_app_status_save_and_reset() {
    let mut app = EditorApp::new(vec!["/a".to_string()]);
    assert_eq!(app.status_bar_project(), "Project: None");
    app.project_loaded("/p".to_string(), Ok(WorkspaceManifest::default()));
    assert_eq!(app.status_bar_project(), "Project: My NovaForge Project");
    app.project_saved(Ok(()));
    assert_eq!(app.status, "Project saved.");
    app.project_saved(Err("disk full".to_string()));
    assert_eq!(app.status, "Save error: disk full");
    app.theme = Theme::Light;
    app.reset_layout();
    assert_eq!(app.project.as_ref().map(|m| m.project_name.as_str()), Some("My NovaForge Project"));
    assert_eq!(app.panel_ctx.project_name.as_deref(), Some("My NovaForge Project"));
    assert_eq!(app.status, "Save error: disk full");
    assert_eq!(app.theme, Theme::Light);
    assert_eq!(app.recent_projects, vec!["/p", "/a"]);
}

#[test]
fn editor_app_routes_open_requests() {
    let tree = DirNode {
        name: "assets".to_string(),
        is_dir: true,
        children: vec![DirNode { name: "a.toml".to_string(), is_dir: false, children: vec![] }],
    };
    let mut app = EditorApp::new(Vec::new());
    let mut browser = WorkspaceBrowser::new();
    let mut assets = AssetEditor::new();
    browser.set_root("/r".to_string(), &tree);
    assert!(!app.route_file_requests(&mut browser, &mut assets));
    assert_eq!(app.panel_ctx.selected_file, None);
    browser.request_open(0);
    assert!(app.route_file_requests(&mut browser, &mut assets));
    assert_eq!(app.panel_ctx.selected_file.as_deref(), Some("/r/a.toml"));
    assert!(browser.open_file_request.is_none());
    assets.open_file_request = Some("/elsewhere/b.ron".to_string());
    assert!(app.route_file_requests(&mut browser, &mut assets));
    assert_eq!(app.panel_ctx.selected_file.as_deref(), Some("/elsewhere/b.ron"));
    assert!(assets.open_file_request.is_none());
}

#[test]
fn graph_drags_pick_ports_before_bodies() {
    assert_eq!(drag_start(&vec![false, true, true], &vec![true, true, false]), DragMode::DrawingLink(1));
    assert_eq!(drag_start(&vec![false, false, false], &vec![false, true, true]), DragMode::MovingNode(1));
    assert_eq!(drag_start(&vec![false, false], &vec![false, false]), DragMode::PanningCanvas);

    let mut g = LogicGraph::from_parts(vec!["a", "b", "c"], vec![], 3);
    assert_eq!(g.begin_drag(&vec![false, false, false], &vec![false, false, true]), DragMode::MovingNode(2));
    assert_eq!(g.selected, Some(2));
    // The source's own input port does not count; the first other hit does.
    g.end_link(0, &vec![true, false, true]);
    assert_eq!(g.edges, vec![(0, 2)]);
    g.end_link(0, &vec![true, false, true]);
    assert_eq!(g.edges, vec![(0, 2)]);
    g.end_link(1, &vec![false, true, false]);
    assert_eq!(g.edges, vec![(0, 2)]);

    let mut m = MaterialGraph::from_parts(vec!["tex", "mul", "out"], vec![1, 2, 2], vec![], 3);
    m.end_wire(0, &vec![vec![true], vec![false, false], vec![false, true]]);
    assert_eq!(m.wires, vec![Wire { from_node: 0, to_node: 2, to_input: 1 }]);
    m.end_wire(1, &vec![vec![false], vec![false, false], vec![false, true]]);
    assert_eq!(m.wires.len(), 1);
    m.end_wire(1, &vec![vec![true], vec![true, true], vec![true, false]]);
    assert_eq!(m.wires[1], Wire { from_node: 1, to_node: 0, to_input: 0 });
    m.end_wire(2, &vec![vec![false], vec![false, false], vec![false, false]]);
    assert_eq!(m.wires.len(), 2);
}

#[test]
fn graphs_refuse_links_from_a_node_to_itself() {
    let mut g = LogicGraph::from_parts(vec!["a", "b"], vec![], 2);
    g.connect(1, 1);
    assert!(g.edges.is_empty());
    let mut m = MaterialGraph::from_parts(vec!["a", "b"], vec![1, 1], vec![], 2);
    m.connect(0, 0, 0);
    assert!(m.wires.is_empty());
    m.connect(0, 1, 0);
    assert_eq!(m.wires.len(), 1);
}

#[test]
fn ui_canvas_widget_operations() {
    let mut c = UiCanvas::new(vec![UiWidget { label: "HUD Panel".to_string(), kind: WidgetKind::Panel, rect: (40, 40) }]);
    c.add_widget(WidgetKind::Button, (20, 100));
    assert_eq!(c.widgets.items[1].label, "Button 2");
    assert_eq!(c.widgets.selected, None);
    c.begin_drag(&vec![false, true]);
    assert_eq!(c.dragging, Some(1));
    assert_eq!(c.widgets.selected, Some(1));
    c.end_drag();
    assert_eq!(c.dragging, None);
    c.click(true);
    assert_eq!(c.widgets.selected, Some(1));
    let removed = c.delete_selected().unwrap();
    assert_eq!(removed.label, "Button 2");
    assert_eq!(c.widgets.items.len(), 1);
    assert_eq!(c.widgets.selected, None);
    c.begin_drag(&vec![true]);
    c.click(false);
    assert_eq!(c.widgets.selected, None);
    assert!(c.delete_selected().is_none());
}

#[test]
fn editor_app_keyboard_shortcuts() {
    let mut app = EditorApp::new(Vec::new());
    let mut file = GameFileEditor::default();
    let mut build = BuildToolPanel::default();
    let fx = app.handle_shortcuts(&mut file, &mut build, true, true, false);
    assert!(fx.write.is_none());
    assert!(fx.show_build_tab);
    assert!(fx.debug_build.is_none());
    assert_eq!(build.log_lines.last().unwrap().0, LogLevel::Error);
    app.project_loaded("/p".to_string(), Ok(WorkspaceManifest::default()));
    file.file_read("/p/a.toml".to_string(), Ok("x".to_string()));
    file.edit("y".to_string());
    let fx = app.handle_shortcuts(&mut file, &mut build, true, true, true);
    assert_eq!(fx.write, Some(("/p/a.toml".to_string(), "y".to_string())));
    assert_eq!(fx.debug_build.unwrap().nova_forge_path, "../Nova-Forge");
    assert_eq!(fx.run.unwrap().nova_forge_path, "../Nova-Forge");
    let n = build.log_lines.len();
    assert_eq!(build.log_lines[n - 2].1, "--- Build (debug) ---");
    assert_eq!(build.log_lines[n - 1].1, "--- Run ---");
    assert!(build.running);
    let fx = app.handle_shortcuts(&mut file, &mut build, false, false, false);
    assert!(!fx.show_build_tab && fx.write.is_none());
    assert_eq!(build.log_lines.len(), n);
}

#[test]
fn material_graph_keeps_input_counts_with_nodes() {
    let mut g = MaterialGraph::from_parts(vec!["tex"], vec![0], vec![], 1);
    g.push_node("mix", 2);
    assert_eq!(g.input_counts, vec![0, 2]);
    assert_eq!(g.selected, Some(1));
    g.connect(0, 1, 1);
    assert_eq!(g.wires, vec![Wire { from_node: 0, to_node: 1, to_input: 1 }]);
    g.select(0);
    g.delete_selected();
    assert_eq!(g.nodes, vec!["mix"]);
    assert_eq!(g.input_counts, vec![2]);
    assert!(g.wires.is_empty());
}
