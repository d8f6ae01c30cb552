use novaforge::panel::PanelContext;
use novaforge::canvas::GizmoMode;
use novaforge::scene::{
    counter_after_load, empty_list_note, entity_number_of, parse_u32, visible_entities, SceneEntities,
    SceneEntity,
};
use novaforge::status::{LoadError, SaveError};

#[test]
fn parse_u32_agrees_with_str_parse() {
    let samples = [
        "", "+", "-", "0", "7", "007", "+12", "-12", "++1", "1+", " 1", "1 ", "12a", "4294967295",
        "4294967296", "+4294967295", "99999999999999999999", "٣", "1_000", "0x10",
    ];
    for s in samples {
        assert_eq!(parse_u32(s), s.parse::<u32>().ok(), "{s:?}");
    }
    for n in (0..5_000_000u64).step_by(997).chain([u32::MAX as u64, u32::MAX as u64 + 1]) {
        let s = n.to_string();
        assert_eq!(parse_u32(&s), s.parse::<u32>().ok(), "{s:?}");
    }
}

#[test]
fn entity_numbers_come_from_entity_names() {
    assert_eq!(entity_number_of("Entity 10"), Some(10));
    assert_eq!(entity_number_of("Entity +3"), Some(3));
    assert_eq!(entity_number_of("Entity "), None);
    assert_eq!(entity_number_of("Entity 1a"), None);
    assert_eq!(entity_number_of("entity 4"), None);
    assert_eq!(entity_number_of("World Root"), None);
}

#[test]
fn counter_after_load_stays_above_loaded_names() {
    let names: Vec<String> =
        ["World Root", "Entity 10", "Entity 3", "Copy of Entity 40", "Entity x"].iter().map(|s| s.to_string()).collect();
    assert_eq!(counter_after_load(2, &names), 10);
    assert_eq!(counter_after_load(12, &names), 12);
    assert_eq!(counter_after_load(5, &Vec::new()), 5);
}

#[test]
fn entity_filter_ignores_case() {
    let names: Vec<String> = ["World Root", "Player Spawn", "Entity 3"].iter().map(|s| s.to_string()).collect();
    assert_eq!(visible_entities(&names, ""), vec![0, 1, 2]);
    assert_eq!(visible_entities(&names, "SPAWN"), vec![1]);
    assert_eq!(visible_entities(&names, "t"), vec![0, 2]);
    assert_eq!(visible_entities(&names, "zzz"), Vec::<usize>::new());
    assert_eq!(empty_list_note(0, 0), Some("No entities.\nPress ＋ to add one."));
    assert_eq!(empty_list_note(3, 0), Some("No matches."));
    assert_eq!(empty_list_note(3, 1), None);
}

fn ent(name: &str, x: i32) -> SceneEntity<i32> {
    SceneEntity { name: name.to_string(), transform: x }
}

fn entity_list(scene: &SceneEntities<i32>) -> Vec<(String, i32)> {
    scene.list.items.iter().map(|e| (e.name.clone(), e.transform)).collect()
}

#[test]
fn scene_entities_add_load_and_save() {
    let mut scene = SceneEntities::new(vec![ent("root", 0), ent("spawn", 1)], 2);
    assert_eq!(scene.next_entity_name(), "Entity 3");
    scene.list.push_and_select(ent("Entity 3", 0));
    assert_eq!(scene.list.selected, Some(2));
    let no_project = PanelContext::default();
    assert!(scene.save_target(&no_project).is_none());
    assert_eq!(scene.status, "No project loaded — cannot save scene.");
    assert!(scene.load_target(&no_project).is_none());
    assert_eq!(scene.status, "No project loaded — cannot load scene.");
    let ctx = PanelContext { asset_root: Some("/a".to_string()), ..PanelContext::default() };
    let path = scene.save_target(&ctx).unwrap();
    assert_eq!(path, "/a/scenes/scene.toml");
    scene.saved(&path, Ok(()));
    assert_eq!(scene.status, "Saved → /a/scenes/scene.toml");
    scene.saved(&path, Err(SaveError::Write("full".to_string())));
    assert_eq!(scene.status, "Write error: full");
    scene.loaded(&path, Err(LoadError::NotFound));
    assert_eq!(scene.status, "File not found: /a/scenes/scene.toml");
    assert_eq!(scene.list.items.len(), 3);
    scene.loaded(&path, Ok(vec![ent("World Root", 0), ent("Entity 10", 5)]));
    assert_eq!(entity_list(&scene), vec![("World Root".to_string(), 0), ("Entity 10".to_string(), 5)]);
    assert_eq!(scene.list.selected, None);
    assert_eq!(scene.entity_counter, 10);
    assert_eq!(scene.status, "Loaded 2 entities ← /a/scenes/scene.toml");
    assert_eq!(scene.next_entity_name(), "Entity 11");
}

#[test]
fn scene_pie_actions() {
    let mut scene = SceneEntities::new(vec![ent("World Root", 0), ent("Player Spawn", 7)], 2);
    let mut gizmo = GizmoMode::Translate;
    scene.execute_pie_action(2, &mut gizmo, 0, |t: &i32| *t + 1);
    assert_eq!(gizmo, GizmoMode::Scale);
    // Duplicate and delete need a selection.
    scene.execute_pie_action(4, &mut gizmo, 0, |t: &i32| *t + 1);
    scene.execute_pie_action(5, &mut gizmo, 0, |t: &i32| *t + 1);
    assert_eq!(scene.list.items.len(), 2);
    scene.execute_pie_action(3, &mut gizmo, 0, |t: &i32| *t + 1);
    assert_eq!(scene.list.items[2].name, "Entity 3");
    assert_eq!(scene.list.selected, Some(2));
    scene.list.select(1);
    scene.execute_pie_action(4, &mut gizmo, 0, |t: &i32| *t + 1);
    assert_eq!(entity_list(&scene)[3], ("Copy of Player Spawn".to_string(), 8));
    assert_eq!(scene.list.selected, Some(3));
    scene.execute_pie_action(5, &mut gizmo, 0, |t: &i32| *t + 1);
    assert_eq!(scene.list.items.len(), 3);
    assert_eq!(scene.list.selected, Some(2));
    scene.execute_pie_action(9, &mut gizmo, 0, |t: &i32| *t + 1);
    assert_eq!(scene.list.items.len(), 3);
    assert_eq!(gizmo, GizmoMode::Scale);
}
