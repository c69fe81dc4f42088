use apipost_ui::folders::{collect_descendant_ids, folder_depth, move_targets, Folder};

fn folder(id: &str, name: &str, parent: Option<&str>) -> Folder {
    Folder { id: id.to_string(), name: name.to_string(), parent_id: parent.map(|p| p.to_string()) }
}

fn tree() -> Vec<Folder> {
    vec![
        folder("a", "Alpha", None),
        folder("b", "Beta", Some("a")),
        folder("c", "Gamma", Some("b")),
        folder("d", "Delta", None),
        folder("e", "Beta", Some("d")),
        folder("f", "Aardvark", None),
    ]
}

#[test]
fn depths_and_descendants() {
    let fs = tree();
    assert_eq!(folder_depth(&fs, "a"), 0);
    assert_eq!(folder_depth(&fs, "c"), 2);
    assert_eq!(folder_depth(&fs, "missing"), 0);
    assert_eq!(collect_descendant_ids(&fs, "a"), vec!["b".to_string(), "c".to_string()]);
    assert_eq!(collect_descendant_ids(&fs, "d"), vec!["e".to_string()]);
    assert!(collect_descendant_ids(&fs, "c").is_empty());
}

#[test]
fn move_targets_exclude_self_and_descendants_and_are_sorted() {
    let fs = tree();
    // moving folder a: a, b and c are out; by depth, then name, then position
    let t = move_targets(&fs, "a", true);
    let ids: Vec<&str> = t.iter().map(|&i| fs[i].id.as_str()).collect();
    assert_eq!(ids, vec!["f", "d", "e"]);
    // moving a request: every folder
    let t = move_targets(&fs, "req", false);
    let ids: Vec<&str> = t.iter().map(|&i| fs[i].id.as_str()).collect();
    assert_eq!(ids, vec!["f", "a", "d", "b", "e", "c"]);
}

#[test]
fn move_targets_ties_keep_folder_order() {
    let fs = vec![folder("x", "Same", None), folder("y", "Same", None), folder("z", "Other", None)];
    let t = move_targets(&fs, "none", false);
    assert_eq!(t, vec![2, 0, 1]);
    let one = vec![folder("only", "x", None)];
    assert_eq!(move_targets(&one, "none", false), vec![0]);
    assert!(move_targets(&one, "only", true).is_empty());
}

#[test]
fn toggle_expanded_folders() {
    let mut expanded = vec!["a".to_string(), "b".to_string()];
    apipost_ui::folders::toggle_folder_expand(&mut expanded, "a");
    assert_eq!(expanded, vec!["b".to_string()]);
    apipost_ui::folders::toggle_folder_expand(&mut expanded, "c");
    assert_eq!(expanded, vec!["b".to_string(), "c".to_string()]);
    apipost_ui::folders::toggle_folder_expand(&mut expanded, "c");
    assert_eq!(expanded, vec!["b".to_string()]);
}

#[test]
fn edit_dialog_takes_the_parent_from_the_list() {
    let fs = tree();
    let mut d = apipost_ui::dialogs::FolderDialogState::new();
    apipost_ui::folders::open_folder_edit_dialog(&mut d, &fs, "c".to_string(), "Gamma".to_string());
    assert_eq!(d.parent_id.as_deref(), Some("b"));
    assert_eq!(d.folder_id.as_deref(), Some("c"));
    assert!(d.visible && d.is_edit);
    apipost_ui::folders::open_folder_edit_dialog(&mut d, &fs, "zz".to_string(), "?".to_string());
    assert!(d.parent_id.is_none());
}
