use novaforge::asset_editor::extension_of_path;
use novaforge::gamefile::GameFileEditor;
use novaforge::paths::{file_name_of, join};
use std::path::{Path, PathBuf};

const SAMPLES: [&str; 28] = [
    "", "/", ".", "..", "./", "../", "a", "a/", "a//", "a/.", "a/./", "a/..", "/a", "/a/b.txt",
    "./a.png", "a/./b.ron", "a/b/..", "a/b/.", "dir.d/", "x.tar.gz", ".hidden", "dir/.hidden",
    "trailing.", "a/trailing./", "//", "/..", "./.", "models/hero.vox",
];

#[test]
fn file_names_match_std_path() {
    for s in SAMPLES {
        let expected = Path::new(s).file_name().map(|n| n.to_str().unwrap().to_string());
        assert_eq!(file_name_of(s), expected, "{s:?}");
    }
}

#[test]
fn path_extensions_match_std_path() {
    for s in SAMPLES {
        let expected = Path::new(s).extension().map(|e| e.to_str().unwrap()).unwrap_or("");
        assert_eq!(extension_of_path(s), expected, "{s:?}");
    }
}

#[test]
fn joins_match_pathbuf_join() {
    for base in ["", "/", "root", "root/", "/abs/dir"] {
        for seg in ["", "a", "a/b", "/x", "a/"] {
            let expected = PathBuf::from(base).join(seg);
            assert_eq!(join(base, seg), expected.to_str().unwrap(), "{base:?} + {seg:?}");
        }
    }
}

#[test]
fn game_file_title_shows_name_and_unsaved_star() {
    let mut ed = GameFileEditor::default();
    assert_eq!(ed.title_line(), None);
    ed.file_read("/proj/assets/config/game.toml".to_string(), Ok("a = 1".to_string()));
    assert_eq!(ed.title_line().unwrap(), "📄 game.toml");
    ed.edit("a = 2".to_string());
    assert_eq!(ed.title_line().unwrap(), "✏ game.toml *");
    ed.file_read("/".to_string(), Ok(String::new()));
    assert_eq!(ed.title_line().unwrap(), "📄 ?");
}
