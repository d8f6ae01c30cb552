use novaforge::project::{AssetKind, WorkspaceManifest, MANIFEST_FILE};
use novaforge::scan::{extension_of, scan_assets, DirNode};

fn file(name: &str) -> DirNode {
    DirNode { name: name.to_string(), is_dir: false, children: Vec::new() }
}

fn dir(name: &str, children: Vec<DirNode>) -> DirNode {
    DirNode { name: name.to_string(), is_dir: true, children }
}

#[test]
fn nova_forge_binary_path_is_non_empty() {
    let m = WorkspaceManifest::default();
    assert!(!m.nova_forge_binary().is_empty());
}

#[test]
fn scan_assets_returns_files_in_tmp() {
    let root = dir("novaforge_test_scan", vec![file("hero.png"), file("map.ron")]);

    let entries = scan_assets(&root, 2);
    assert!(entries.iter().any(|e| e.relative_path.contains("hero.png")));
    assert!(entries.iter().any(|e| e.relative_path.contains("map.ron")));

    let png = entries
        .iter()
        .find(|e| e.relative_path.contains("hero.png"))
        .unwrap();
    assert_eq!(png.kind, AssetKind::Texture);

    let ron = entries
        .iter()
        .find(|e| e.relative_path.contains("map.ron"))
        .unwrap();
    assert_eq!(ron.kind, AssetKind::Scene);
}

#[test]
fn asset_kind_from_extension() {
    assert_eq!(AssetKind::from_extension("png"), AssetKind::Texture);
    assert_eq!(AssetKind::from_extension("PNG"), AssetKind::Texture);
    assert_eq!(AssetKind::from_extension("vox"), AssetKind::Model);
    assert_eq!(AssetKind::from_extension("ogg"), AssetKind::Sound);
    assert_eq!(AssetKind::from_extension("ron"), AssetKind::Scene);
    assert_eq!(AssetKind::from_extension("xyz"), AssetKind::Other);
}

#[test]
fn asset_kind_covers_every_documented_extension() {
    for e in ["png", "jpg", "jpeg", "webp", "tga", "bmp", "Jpeg", "BMP"] {
        assert_eq!(AssetKind::from_extension(e), AssetKind::Texture, "{e}");
    }
    for e in ["vox", "obj", "gltf", "glb", "fbx", "mesh", "GLTF"] {
        assert_eq!(AssetKind::from_extension(e), AssetKind::Model, "{e}");
    }
    for e in ["ogg", "wav", "mp3", "flac", "WAV"] {
        assert_eq!(AssetKind::from_extension(e), AssetKind::Sound, "{e}");
    }
    for e in ["ron", "scene", "Scene"] {
        assert_eq!(AssetKind::from_extension(e), AssetKind::Scene, "{e}");
    }
    for e in ["", "txt", "pngx", "pn", "toml"] {
        assert_eq!(AssetKind::from_extension(e), AssetKind::Other, "{e}");
    }
}

#[test]
fn asset_kind_icons() {
    assert_eq!(AssetKind::Texture.icon(), "🖼");
    assert_eq!(AssetKind::Model.icon(), "📦");
    assert_eq!(AssetKind::Sound.icon(), "🔊");
    assert_eq!(AssetKind::Scene.icon(), "🌐");
    assert_eq!(AssetKind::Other.icon(), "📄");
}

#[test]
fn default_manifest_values() {
    let m = WorkspaceManifest::default();
    assert_eq!(m.project_name, "My NovaForge Project");
    assert_eq!(m.nova_forge_path, "../Nova-Forge");
    assert_eq!(m.asset_root, "../Nova-Forge/assets");
    assert!(m.active_scene.is_none());
    assert!(m.recent_scenes.is_empty());
}

#[test]
fn manifest_paths_join_like_pathbuf() {
    let m = WorkspaceManifest::default();
    assert_eq!(m.nova_forge_binary(), "../Nova-Forge/target/release/nova-forge-voxygen");
    assert_eq!(m.build_script(), "../Nova-Forge/nova-forge.sh");
    let mut trailing = WorkspaceManifest::default();
    trailing.nova_forge_path = "/opt/nf/".to_string();
    assert_eq!(trailing.build_script(), "/opt/nf/nova-forge.sh");
    let mut empty = WorkspaceManifest::default();
    empty.nova_forge_path = String::new();
    assert_eq!(empty.build_script(), "nova-forge.sh");
}

#[test]
fn manifest_file_path_for_directory_or_file() {
    assert_eq!(
        WorkspaceManifest::manifest_file_path("proj", true),
        format!("proj/{MANIFEST_FILE}")
    );
    assert_eq!(WorkspaceManifest::manifest_file_path("proj/x.toml", false), "proj/x.toml");
}

#[test]
fn scan_lists_directories_first_then_by_name() {
    let root = dir(
        "root",
        vec![
            file("b.png"),
            dir("zeta", vec![file("z.wav")]),
            file("a.ogg"),
            dir("alpha", vec![file("m.ron"), dir("deep", vec![file("d.obj")])]),
        ],
    );
    let entries = scan_assets(&root, 4);
    let paths: Vec<&str> = entries.iter().map(|e| e.relative_path.as_str()).collect();
    assert_eq!(paths, vec!["alpha/deep/d.obj", "alpha/m.ron", "zeta/z.wav", "a.ogg", "b.png"]);
    let kinds: Vec<AssetKind> = entries.iter().map(|e| e.kind).collect();
    assert_eq!(
        kinds,
        vec![AssetKind::Model, AssetKind::Scene, AssetKind::Sound, AssetKind::Sound, AssetKind::Texture]
    );
}

#[test]
fn scan_respects_max_depth() {
    let root = dir(
        "root",
        vec![file("top.png"), dir("one", vec![file("mid.png"), dir("two", vec![file("low.png")])])],
    );
    let paths = |d: usize| -> Vec<String> {
        scan_assets(&root, d).into_iter().map(|e| e.relative_path).collect()
    };
    assert_eq!(paths(0), vec!["top.png"]);
    assert_eq!(paths(1), vec!["one/mid.png", "top.png"]);
    assert_eq!(paths(2), vec!["one/two/low.png", "one/mid.png", "top.png"]);
}

#[test]
fn scan_of_empty_or_unreadable_root_is_empty() {
    assert!(scan_assets(&dir("root", Vec::new()), 3).is_empty());
    assert!(scan_assets(&file("not-a-dir"), 3).is_empty());
}

#[test]
fn scan_replaces_backslashes_in_paths() {
    let root = dir("root", vec![file("odd\\name.png")]);
    assert_eq!(scan_assets(&root, 1)[0].relative_path, "odd/name.png");
}

#[test]
fn extensions_follow_path_rules() {
    assert_eq!(extension_of("hero.png"), "png");
    assert_eq!(extension_of("archive.tar.gz"), "gz");
    assert_eq!(extension_of(".gitignore"), "");
    assert_eq!(extension_of("README"), "");
    assert_eq!(extension_of("trailing."), "");
    assert_eq!(extension_of(".."), "");
    assert_eq!(extension_of("a.b."), "");
}
