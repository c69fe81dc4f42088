use apipost_ui::dialogs::{
    active_env_id, active_environment_name, env_vars_from_json, env_vars_json, EnvironmentRow, EnvSave, FolderAction,
    EnvDialogState, EnvToEdit, FolderDialogState, MoveDialogState, RefreshFlags, MAX_VAR_SLOTS,
};

fn pair(k: &str, v: &str) -> (String, String) {
    (k.to_string(), v.to_string())
}

#[test]
fn env_dialog_new_and_load() {
    let mut d = EnvDialogState::new();
    assert!(!d.visible);
    assert_eq!(d.current_var_count, 0);
    assert_eq!(d.global_var_count, 1);
    assert_eq!(d.current_vars.len(), MAX_VAR_SLOTS);
    let env = EnvToEdit {
        id: "e1".to_string(),
        name: "Dev".to_string(),
        vars: Some(vec![pair("host", "localhost"), pair("port", "8080")]),
    };
    d.load_from(Some(&env));
    assert!(d.visible && d.is_edit && !d.is_global_only);
    assert_eq!(d.env_id.as_deref(), Some("e1"));
    assert_eq!(d.name, "Dev");
    assert_eq!(d.current_var_count, 2);
    assert_eq!(d.current_vars[1], pair("port", "8080"));
    assert_eq!(d.current_vars[2], pair("", ""));
    assert_eq!(d.global_var_count, 0);
    d.load_from(None);
    assert!(!d.is_edit);
    assert_eq!(d.name, "");
    assert_eq!(d.current_var_count, 1);
    assert_eq!(d.current_vars[0], pair("", ""));
    assert_eq!(d.current_vars[1], pair("", ""));
    assert!(d.collect_current_vars().is_empty());
}

#[test]
fn env_dialog_leaves_nothing_of_an_earlier_edit() {
    let mut d = EnvDialogState::new();
    let env = EnvToEdit { id: "a".to_string(), name: "A".to_string(), vars: Some(vec![pair("old", "1")]) };
    d.load_from(Some(&env));
    let empty = EnvToEdit { id: "b".to_string(), name: "B".to_string(), vars: Some(Vec::new()) };
    d.load_from(Some(&empty));
    assert_eq!(d.current_var_count, 1);
    assert!(d.collect_current_vars().is_empty());
    d.open_global(&vec![pair("g", "1")]);
    d.open_global(&Vec::new());
    assert_eq!(d.global_var_count, 1);
    assert!(d.collect_global_vars().is_empty());
}

#[test]
fn env_dialog_caps_rows_and_keeps_count_on_unreadable_vars() {
    let mut d = EnvDialogState::new();
    let many: Vec<(String, String)> = (0..20).map(|i| pair(&format!("k{i}"), "v")).collect();
    d.open_global(&many);
    assert!(d.is_global_only && d.visible);
    assert_eq!(d.global_var_count, MAX_VAR_SLOTS);
    assert_eq!(d.global_vars[14], pair("k14", "v"));
    d.open_global(&Vec::new());
    assert_eq!(d.global_var_count, 1);
    let env = EnvToEdit { id: "e".to_string(), name: "n".to_string(), vars: Some(Vec::new()) };
    d.load_from(Some(&env));
    assert_eq!(d.current_var_count, 1);
    d.add_var_row(true);
    d.add_var_row(true);
    let broken = EnvToEdit { id: "e".to_string(), name: "n".to_string(), vars: None };
    d.load_from(Some(&broken));
    assert_eq!(d.current_var_count, 3);
}

#[test]
fn env_dialog_rows_and_collect() {
    let mut d = EnvDialogState::new();
    d.open_global(&vec![pair("a", "1"), pair("  ", "blank"), pair("b", "2"), pair("c", "3")]);
    assert_eq!(d.collect_global_vars(), vec![pair("a", "1"), pair("b", "2"), pair("c", "3")]);
    d.remove_var_row(false, 0);
    assert_eq!(d.global_var_count, 3);
    assert_eq!(d.global_vars[0], pair("  ", "blank"));
    assert_eq!(d.global_vars[3], pair("", ""));
    assert_eq!(d.collect_global_vars(), vec![pair("b", "2"), pair("c", "3")]);
    d.remove_var_row(false, 7);
    assert_eq!(d.global_var_count, 3);
    d.add_var_row(false);
    assert_eq!(d.global_var_count, 4);
    assert!(d.collect_current_vars().is_empty());
    for _ in 0..20 {
        d.add_var_row(true);
    }
    assert_eq!(d.current_var_count, MAX_VAR_SLOTS);
}

#[test]
fn folder_and_move_dialogs() {
    let mut f = FolderDialogState::new();
    f.open_for_create(Some("p".to_string()));
    assert!(f.visible && !f.is_edit && !f.is_request);
    assert_eq!(f.parent_id.as_deref(), Some("p"));
    f.open_for_edit("f1".to_string(), "Old".to_string(), None);
    assert!(f.is_edit && !f.is_request);
    assert_eq!(f.folder_id.as_deref(), Some("f1"));
    assert_eq!(f.name, "Old");
    f.open_for_request_rename("r1".to_string(), "Req".to_string());
    assert!(f.is_request);
    assert_eq!(f.request_id.as_deref(), Some("r1"));
    assert!(f.folder_id.is_none() && f.parent_id.is_none());
    let mut m = MoveDialogState::new();
    m.selected_folder_id = Some("x".to_string());
    m.open("item".to_string(), true);
    assert!(m.visible && m.is_folder);
    assert_eq!(m.item_id, "item");
    assert!(m.selected_folder_id.is_none());
}

#[test]
fn refresh_flags_plan() {
    let mut flags = RefreshFlags {
        env_dialog: false,
        folder_dialog: true,
        move_dialog: false,
        dropped: false,
        save_request_dialog: false,
        collections: false,
    };
    let p = flags.check_dialog_refresh_flags();
    assert!(!p.environments && p.lists && p.collections);
    assert!(!flags.folder_dialog);
    flags.collections = true;
    let p = flags.check_dialog_refresh_flags();
    assert!(!p.lists && p.collections);
    let p = flags.check_dialog_refresh_flags();
    assert!(!p.environments && !p.lists && !p.collections);
    flags.env_dialog = true;
    let p = flags.check_dialog_refresh_flags();
    assert!(p.environments && p.lists && p.collections);
}

#[test]
fn folder_dialog_submit() {
    let mut f = FolderDialogState::new();
    f.open_for_create(Some("p".to_string()));
    f.name = "   ".to_string();
    assert!(f.submit().is_none());
    assert!(f.visible);
    f.name = "  New  ".to_string();
    match f.submit() {
        Some(FolderAction::CreateFolder(name, parent)) => {
            assert_eq!(name, "New");
            assert_eq!(parent.as_deref(), Some("p"));
        }
        _ => panic!("creating a folder"),
    }
    assert!(!f.visible && f.needs_refresh);
    f.open_for_edit("f1".to_string(), "Renamed".to_string(), None);
    assert!(matches!(f.submit(), Some(FolderAction::RenameFolder(id, n, None)) if id == "f1" && n == "Renamed"));
    f.open_for_request_rename("r1".to_string(), "R".to_string());
    assert!(matches!(f.submit(), Some(FolderAction::RenameRequest(id, n)) if id == "r1" && n == "R"));
    f.open_for_edit("f2".to_string(), "x".to_string(), None);
    f.folder_id = None;
    assert!(matches!(f.submit(), Some(FolderAction::Close)));
}

#[test]
fn env_dialog_save() {
    let mut d = EnvDialogState::new();
    d.load_from(None);
    d.name = " ".to_string();
    assert!(d.save(None).is_none());
    assert!(d.name_error && d.visible);
    let env = EnvToEdit { id: "e1".to_string(), name: "Dev".to_string(), vars: Some(vec![pair("k", "v"), pair(" ", "x")]) };
    d.load_from(Some(&env));
    match d.save(Some("e1")) {
        Some(EnvSave::Environment(id, name, vars, active)) => {
            assert_eq!(id.as_deref(), Some("e1"));
            assert_eq!(name, "Dev");
            assert_eq!(vars, vec![pair("k", "v")]);
            assert!(active);
        }
        _ => panic!("saving an environment"),
    }
    assert!(!d.visible && d.needs_refresh);
    d.open_global(&vec![pair("g", "1")]);
    assert!(matches!(d.save(Some("e1")), Some(EnvSave::Globals(v)) if v == vec![pair("g", "1")]));
    d.load_from(Some(&env));
    assert!(matches!(d.save(Some("other")), Some(EnvSave::Environment(_, _, _, false))));
}

fn env(id: &str, name: &str, is_active: bool) -> EnvironmentRow {
    EnvironmentRow { id: id.to_string(), name: name.to_string(), is_active }
}

#[test]
fn first_active_environment_is_reported() {
    let envs = vec![env("a", "Dev", false), env("b", "Prod", true), env("c", "Test", true)];
    assert_eq!(active_env_id(&envs), Some("b".to_string()));
    assert_eq!(active_environment_name(&envs), Some("Prod".to_string()));
    let none = vec![env("a", "Dev", false)];
    assert_eq!(active_env_id(&none), None);
    assert_eq!(active_environment_name(&Vec::new()), None);
}

#[test]
fn stored_variables_are_read_and_written_as_json() {
    let e = EnvToEdit::from_stored("e", "Env", "{\"b\":\"2\",\"a\":\"1\"}");
    assert_eq!(e.id, "e");
    assert_eq!(e.name, "Env");
    let vars = e.vars.unwrap();
    assert_eq!(vars.len(), 2);
    assert!(vars.contains(&pair("a", "1")) && vars.contains(&pair("b", "2")));
    assert!(env_vars_from_json("{\"a\":1}").is_none());
    assert!(env_vars_from_json("[\"a\"]").is_none());
    assert!(env_vars_from_json("not json").is_none());
    assert_eq!(env_vars_from_json("{}"), Some(Vec::new()));
    let text = env_vars_json(&vec![pair("k", "1"), pair("a", "2"), pair("k", "3")]);
    let back = env_vars_from_json(&text).unwrap();
    assert_eq!(back.len(), 2);
    assert!(back.contains(&pair("a", "2")) && back.contains(&pair("k", "3")));
    assert_eq!(env_vars_json(&Vec::new()), "{}");
}
