use novaforge::asset_editor::{
    is_text_ext, preview_text, AssetEditor, KindFilter, PreviewAction,
};
use novaforge::browser::{scan_dir, WorkspaceBrowser};
use novaforge::data_editor::{DataEditor, DataRow};
use novaforge::status::{LoadError, SaveError};
use novaforge::gamefile::GameFileEditor;
use novaforge::panel::PanelContext;
use novaforge::project::AssetKind;
use novaforge::scan::DirNode;

fn file(name: &str) -> DirNode {
    DirNode { name: name.to_string(), is_dir: false, children: Vec::new() }
}

fn dir(name: &str, children: Vec<DirNode>) -> DirNode {
    DirNode { name: name.to_string(), is_dir: true, children }
}

fn sample_tree() -> DirNode {
    dir(
        "assets",
        vec![
            file("readme.md"),
            dir("textures", vec![file("hero.PNG"), file("grass.png")]),
            dir("world", vec![file("main.ron"), dir("props", vec![file("tree.vox")])]),
        ],
    )
}

#[test]
fn text_extensions_ignore_case() {
    assert!(is_text_ext("toml"));
    assert!(is_text_ext("RON"));
    assert!(is_text_ext("Rs"));
    assert!(!is_text_ext("png"));
    assert!(!is_text_ext(""));
}

#[test]
fn preview_keeps_twenty_lines() {
    let content: String = (1..=30).map(|i| format!("line {i}\r\n")).collect();
    let preview = preview_text(&content);
    let expected: Vec<String> = (1..=20).map(|i| format!("line {i}")).collect();
    assert_eq!(preview, expected.join("\n"));
    assert_eq!(preview_text("a\nb\n"), "a\nb");
    assert_eq!(preview_text(""), "");
    assert_eq!(preview_text("x\r"), "x\r");
    let sample = "one\n\ntwo\r\nthree";
    assert_eq!(preview_text(sample), sample.lines().take(20).collect::<Vec<_>>().join("\n"));
}

#[test]
fn asset_editor_scan_filter_and_open() {
    let mut ed = AssetEditor::new();
    let root = "/proj/assets".to_string();
    assert_eq!(ed.list_note(false), (Some("Open a project to browse its assets."), None));
    assert!(ed.needs_scan(&root));
    ed.scan(root.clone(), &sample_tree());
    assert!(!ed.needs_scan(&root));
    assert_eq!(ed.list_note(true), (None, None));
    assert_eq!(ed.row_label(2), "📦 world/props/tree.vox");
    assert_eq!(AssetEditor::type_text(AssetKind::Sound), "🔊 Sound");
    assert_eq!(AssetEditor::thumbnail_text(AssetKind::Model), "📦 3-D model preview (pending)");
    assert_eq!(AssetEditor::thumbnail_text(AssetKind::Scene), "Thumbnail preview (pending)");
    let mut empty = AssetEditor::new();
    empty.scan("/nothing".to_string(), &DirNode { name: "nothing".to_string(), is_dir: true, children: Vec::new() });
    assert_eq!(empty.list_note(true), (None, Some("No assets found in the project asset root.")));
    let paths: Vec<&str> = ed.assets.iter().map(|a| a.relative_path.as_str()).collect();
    assert_eq!(
        paths,
        vec!["textures/grass.png", "textures/hero.PNG", "world/props/tree.vox", "world/main.ron", "readme.md"]
    );
    ed.filter = "HERO".to_string();
    assert_eq!(ed.visible_assets(), vec![1]);
    ed.filter.clear();
    ed.toggle_kind(AssetKind::Texture);
    assert_eq!(ed.kind_filter, KindFilter::Only(AssetKind::Texture));
    assert_eq!(ed.visible_assets(), vec![0, 1]);
    ed.toggle_kind(AssetKind::Texture);
    assert_eq!(ed.kind_filter, KindFilter::All);
    ed.double_click(0);
    assert_eq!(ed.selected, Some(0));
    assert!(ed.open_file_request.is_none());
    ed.double_click(4);
    assert_eq!(ed.open_file_request.as_deref(), Some("/proj/assets/readme.md"));
    assert_eq!(ed.full_path("a/b.txt").as_deref(), Some("/proj/assets/a/b.txt"));
}

#[test]
fn asset_editor_preview_steps() {
    let mut ed = AssetEditor::new();
    ed.scan("/p".to_string(), &sample_tree());
    ed.select(4);
    match ed.preview_step() {
        PreviewAction::Read(p) => assert_eq!(p, "/p/readme.md"),
        other => panic!("unexpected {other:?}"),
    }
    ed.apply_preview(Some("/p/readme.md".to_string()), Some("# Title\nbody".to_string()));
    assert_eq!(ed.preview.as_deref(), Some("# Title\nbody"));
    assert!(matches!(ed.preview_step(), PreviewAction::Keep));
    ed.select(0);
    match ed.preview_step() {
        PreviewAction::Clear(p) => assert_eq!(p.as_deref(), Some("/p/textures/grass.png")),
        other => panic!("unexpected {other:?}"),
    }
}

#[test]
fn browser_tree_and_collapse() {
    let rows = scan_dir(&sample_tree());
    let listed: Vec<(&str, usize, bool)> =
        rows.iter().map(|r| (r.path.as_str(), r.depth, r.is_dir)).collect();
    assert_eq!(
        listed,
        vec![
            ("textures", 0, true),
            ("textures/grass.png", 1, false),
            ("textures/hero.PNG", 1, false),
            ("world", 0, true),
            ("world/props", 1, true),
            ("world/props/tree.vox", 2, false),
            ("world/main.ron", 1, false),
            ("readme.md", 0, false),
        ]
    );
    assert_eq!(rows[0].icon, "📁");
    assert_eq!(rows[1].icon, "🖼");
    assert_eq!(rows[7].icon, "📄");

    let mut b = WorkspaceBrowser::new();
    assert_eq!(b.empty_note(), Some("Open a project to browse its files."));
    b.set_root("/p".to_string(), &sample_tree());
    assert_eq!(b.empty_note(), None);
    assert_eq!(b.visible_rows(), (0..8).collect::<Vec<_>>());
    assert_eq!(b.row_label(3), "▾ 📁 world");
    assert_eq!(b.row_label(1), "🖼 grass.png");
    b.toggle_collapsed("world");
    assert_eq!(b.row_label(3), "▸ 📁 world");
    assert!(b.is_ancestor_collapsed("world/props/tree.vox"));
    assert!(!b.is_ancestor_collapsed("world"));
    assert_eq!(b.visible_rows(), vec![0, 1, 2, 3, 7]);
    b.toggle_collapsed("world");
    assert_eq!(b.visible_rows(), (0..8).collect::<Vec<_>>());
    b.filter = "HERO".to_string();
    assert_eq!(b.visible_rows(), vec![0, 2, 3, 4]);
}

#[test]
fn browser_selection_paths() {
    let mut b = WorkspaceBrowser::new();
    assert!(b.selected_absolute_path().is_none());
    b.set_root("/p/assets".to_string(), &sample_tree());
    b.select(0);
    assert!(b.selected_absolute_path().is_none());
    b.select(6);
    assert_eq!(b.selected_absolute_path().as_deref(), Some("/p/assets/world/main.ron"));
    b.request_open(7);
    assert_eq!(b.open_file_request.as_deref(), Some("/p/assets/readme.md"));
    assert_eq!(b.refresh_target(None).as_deref(), Some("/p/assets"));
    let fresh = WorkspaceBrowser::new();
    let ctx_root = "/q".to_string();
    assert_eq!(fresh.auto_root(Some(&ctx_root)).as_deref(), Some("/q"));
    assert!(b.auto_root(Some(&ctx_root)).is_none());
}

#[test]
fn browser_stops_at_depth_four() {
    let mut node = file("bottom.txt");
    for name in ["d5", "d4", "d3", "d2", "d1", "d0"] {
        node = dir(name, vec![node]);
    }
    let rows = scan_dir(&dir("root", vec![node]));
    assert_eq!(rows.len(), 5);
    assert_eq!(rows[4].path, "d0/d1/d2/d3/d4");
}

#[test]
fn game_file_editor_flow() {
    let mut ed = GameFileEditor::default();
    assert!(ed.save().is_none());
    assert_eq!(ed.status, "No file open.");
    let sel = "/p/cfg.toml".to_string();
    let open = ed.sync_selection(Some(&sel));
    assert_eq!(open.as_deref(), Some("/p/cfg.toml"));
    assert!(ed.sync_selection(Some(&sel)).is_none());
    ed.file_read(sel.clone(), Ok("a = 1".to_string()));
    assert_eq!(ed.status, "Opened: /p/cfg.toml");
    assert!(ed.save_if_dirty().is_none());
    ed.edit("a = 2".to_string());
    let (path, text) = ed.save_if_dirty().expect("write");
    assert_eq!((path.as_str(), text.as_str()), ("/p/cfg.toml", "a = 2"));
    ed.file_written(&path, Err("disk full".to_string()));
    assert!(ed.dirty);
    assert_eq!(ed.status, "Write error: disk full");
    ed.file_written(&path, Ok(()));
    assert!(!ed.dirty);
    assert_eq!(ed.status, "Saved → /p/cfg.toml");
    ed.file_read("/p/missing.ron".to_string(), Err("not found".to_string()));
    assert_eq!(ed.status, "Read error: not found");
    assert_eq!(ed.open_path.as_deref(), Some("/p/cfg.toml"));
    let img = "/p/hero.png".to_string();
    assert!(ed.sync_selection(Some(&img)).is_none());
    ed.close();
    assert!(ed.open_path.is_none() && ed.content.is_empty() && ed.status.is_empty());
}

fn row(id: &str, name: &str) -> DataRow {
    DataRow {
        id: id.to_string(),
        name: name.to_string(),
        kind: "K".to_string(),
        value: "1".to_string(),
        tags: String::new(),
    }
}

#[test]
fn data_editor_sort_filter_and_edit() {
    let mut ed = DataEditor::default();
    assert_eq!(ed.rows.len(), 4);
    assert_eq!(ed.display_order(), vec![0, 1, 2, 3]);
    ed.click_header(1);
    assert_eq!(ed.display_order(), vec![2, 0, 1, 3]);
    ed.click_header(1);
    assert!(!ed.sort_asc);
    assert_eq!(ed.display_order(), vec![3, 1, 0, 2]);
    ed.click_header(3);
    assert_eq!(ed.display_order(), vec![3, 2, 0, 1]);
    ed.filter = "MELEE".to_string();
    assert_eq!(ed.visible_rows(), vec![2, 0]);
    assert_eq!(DataEditor::col_header("Value", 3, ed.sort_col, ed.sort_asc), "Value ▲");
    assert_eq!(DataEditor::col_header("Name", 1, ed.sort_col, ed.sort_asc), "Name");

    ed.add_row();
    assert_eq!(ed.rows[4].id, "new.entry.4");
    ed.select_row(4);
    ed.edit_buf.name = "Renamed".to_string();
    ed.apply_edit();
    assert_eq!(ed.rows[4].name, "Renamed");
    ed.edit_buf.name = "Scratch".to_string();
    ed.revert_edit();
    assert_eq!(ed.edit_buf.name, "Renamed");
    ed.delete_selected();
    assert_eq!(ed.rows.len(), 4);
    assert!(ed.selected_row.is_none());
}

#[test]
fn data_editor_stable_sort_keeps_ties_in_order() {
    let mut ed = DataEditor::default();
    ed.rows = vec![row("b", "x"), row("a", "y"), row("c", "x"), row("d", "w")];
    ed.click_header(1);
    assert_eq!(ed.display_order(), vec![3, 0, 2, 1]);
    ed.click_header(1);
    assert_eq!(ed.display_order(), vec![1, 0, 2, 3]);
}

#[test]
fn data_editor_paths_and_status() {
    let mut ed = DataEditor::default();
    let none = PanelContext::default();
    assert!(ed.load_target(&none).is_none());
    assert_eq!(ed.save_status, "No project loaded — cannot determine load path.");
    assert!(ed.save_target(&none).is_none());
    assert_eq!(ed.save_status, "No project loaded — cannot determine save path.");
    let ctx = PanelContext { asset_root: Some("/p/assets".to_string()), ..PanelContext::default() };
    let path = ed.load_target(&ctx).unwrap();
    assert_eq!(path, "/p/assets/data/data_table.toml");
    ed.table_loaded(path.clone(), Err(LoadError::NotFound));
    assert_eq!(ed.save_status, "File not found: /p/assets/data/data_table.toml");
    ed.table_loaded(path.clone(), Err(LoadError::Read("denied".to_string())));
    assert_eq!(ed.save_status, "Read error: denied");
    ed.table_loaded(path.clone(), Err(LoadError::Parse("bad".to_string())));
    assert_eq!(ed.save_status, "Parse error: bad");
    ed.table_loaded(path.clone(), Ok(vec![row("x", "y")]));
    assert_eq!(ed.save_status, "Loaded 1 rows ← /p/assets/data/data_table.toml");
    assert_eq!(ed.rows.len(), 1);
    ed.table_saved(path.clone(), Err(SaveError::Directory("ro".to_string())));
    assert_eq!(ed.save_status, "Directory error: ro");
    ed.table_saved(path.clone(), Err(SaveError::Serialise("s".to_string())));
    assert_eq!(ed.save_status, "Serialise error: s");
    ed.table_saved(path.clone(), Err(SaveError::Write("w".to_string())));
    assert_eq!(ed.save_status, "Write error: w");
    ed.table_saved(path.clone(), Ok(()));
    assert_eq!(ed.save_status, "Saved → /p/assets/data/data_table.toml");
    assert_eq!(ed.last_path.as_deref(), Some("/p/assets/data/data_table.toml"));
}
