use novaforge::panel::PanelContext;
use novaforge::selection::SelectList;
use novaforge::status::{LoadError, SaveError};
use novaforge::timeline::{unique_track_name, Timeline, Track};

fn track(name: &str, keyframes: Vec<u32>) -> Track<u32> {
    Track { name: name.to_string(), keyframes }
}

fn names(t: &Timeline<u32>) -> Vec<String> {
    t.tracks.items.iter().map(|t| t.name.clone()).collect()
}

#[test]
fn select_list_delete_keeps_position_or_moves_to_last() {
    let mut l = SelectList::new(vec!['a', 'b', 'c']);
    assert_eq!(l.remove_selected(), None);
    l.select(1);
    assert_eq!(l.remove_selected(), Some('b'));
    assert_eq!(l.items, vec!['a', 'c']);
    assert_eq!(l.selected, Some(1));
    assert_eq!(l.remove_selected(), Some('c'));
    assert_eq!(l.selected, Some(0));
    assert_eq!(l.remove_selected(), Some('a'));
    assert_eq!(l.selected, None);
    assert!(l.items.is_empty());
}

#[test]
fn select_list_push_and_deselect() {
    let mut l = SelectList::new(vec![1, 2]);
    l.push(3);
    assert_eq!(l.selected, None);
    l.push_and_select(4);
    assert_eq!(l.selected, Some(3));
    assert_eq!(l.selected_item(), Some(&4));
    assert_eq!(l.remove_selected_and_deselect(), Some(4));
    assert_eq!(l.selected, None);
    assert_eq!(l.items, vec![1, 2, 3]);
}

#[test]
fn unique_track_names_get_a_number() {
    let tracks = vec![track("Arm", vec![]), track("Arm 2", vec![]), track("Leg", vec![])];
    assert_eq!(unique_track_name(&tracks, "Arm"), "Arm 3");
    assert_eq!(unique_track_name(&tracks, "Leg"), "Leg 2");
    assert_eq!(unique_track_name(&tracks, "Tail"), "Tail");
    let many: Vec<Track<u32>> = (1..=12)
        .map(|k| track(&if k == 1 { "X".to_string() } else { format!("X {k}") }, vec![]))
        .collect();
    assert_eq!(unique_track_name(&many, "X"), "X 13");
}

#[test]
fn timeline_add_and_delete_tracks() {
    let mut t = Timeline::new(vec![track("Root Bone", vec![0, 5, 10]), track("FX", vec![6])], 6);
    t.new_track_name = "   ".to_string();
    assert!(!t.can_add_track());
    t.add_track();
    assert_eq!(names(&t), vec!["Root Bone", "FX"]);
    t.new_track_name = "  FX ".to_string();
    assert!(t.can_add_track());
    t.add_track();
    assert_eq!(names(&t), vec!["Root Bone", "FX", "FX 2"]);
    assert_eq!(t.tracks.selected, Some(2));
    assert_eq!(t.new_track_name, "");
    assert_eq!(t.track_hint().unwrap(), "Track: FX 2  (0 keyframes)");
    t.click_track(0);
    assert_eq!(t.track_hint().unwrap(), "Track: Root Bone  (3 keyframes)");
    let removed = t.delete_selected_track().unwrap();
    assert_eq!(removed.name, "Root Bone");
    assert_eq!(names(&t), vec!["FX", "FX 2"]);
    assert_eq!(t.tracks.selected, Some(0));
    t.click_track(1);
    t.delete_selected_track();
    assert_eq!(t.tracks.selected, Some(0));
    t.delete_selected_track();
    assert_eq!(t.tracks.selected, None);
    assert!(t.track_hint().is_none());
    assert!(t.delete_selected_track().is_none());
}

#[test]
fn timeline_keyframes() {
    let mut t = Timeline::new(vec![track("A", vec![1, 2, 3]), track("B", vec![4])], 6);
    assert_eq!(t.delete_selected_keyframe(), None);
    t.click_keyframe(0, 1);
    assert_eq!(t.delete_selected_keyframe(), Some(2));
    assert_eq!(t.tracks.items[0].keyframes, vec![1, 3]);
    assert_eq!(t.tracks.items[1].keyframes, vec![4]);
    assert_eq!(t.selected_keyframe, None);
    t.click_keyframe(1, 5);
    assert_eq!(t.delete_selected_keyframe(), None);
    assert_eq!(t.selected_keyframe, Some(5));
    assert_eq!(t.next_keyframe_label(), 'H');
    assert_eq!(t.keyframe_counter, 7);
    t.keyframe_counter = 25;
    assert_eq!(t.next_keyframe_label(), 'A');
    assert_eq!(t.next_keyframe_label(), 'B');
}

#[test]
fn timeline_load_and_save_status() {
    let mut t = Timeline::new(vec![track("A", vec![1])], 0);
    t.click_track(0);
    assert!(t.save_target(&PanelContext::default()).is_none());
    assert_eq!(t.status, "No project loaded — cannot save animation.");
    let ctx = PanelContext { asset_root: Some("/a".to_string()), ..PanelContext::default() };
    let path = t.load_target(&ctx).unwrap();
    assert_eq!(path, "/a/animations/animation.toml");
    t.loaded(&path, Err(LoadError::Parse("bad key".to_string())));
    assert_eq!(t.status, "Parse error: bad key");
    assert_eq!(t.tracks.selected, Some(0));
    t.loaded(&path, Ok(vec![track("X", vec![]), track("Y", vec![2])]));
    assert_eq!(names(&t), vec!["X", "Y"]);
    assert_eq!(t.tracks.selected, None);
    assert_eq!(t.status, "Loaded 2 tracks ← /a/animations/animation.toml");
    t.saved(&path, Err(SaveError::Directory("ro".to_string())));
    assert_eq!(t.status, "Directory error: ro");
}
