use apipost_ui::loading::{SaveRequestDialog, SavedRequestDraft};
use apipost_ui::overlay::{update_auto_save_task, AutoSaveCommand, Overlay, Overlays};

fn none_open() -> Overlays<String, (f32, f32)> {
    Overlays {
        context_menu_target: None,
        context_menu_pos: None,
        code_gen: false,
        move_dialog: false,
        folder_dialog: false,
        env_dialog: false,
        save_request: SaveRequestDialog::new(),
        shortcuts_popup: false,
        settings_popover: false,
    }
}

fn draft() -> SavedRequestDraft {
    SavedRequestDraft {
        name: "n".to_string(),
        method: "GET".to_string(),
        url: "u".to_string(),
        headers: None,
        body: None,
    }
}

#[test]
fn close_topmost_one_layer_at_a_time() {
    let mut o = none_open();
    o.settings_popover = true;
    o.env_dialog = true;
    o.context_menu_target = Some("folder-1".to_string());
    o.context_menu_pos = Some((10.0, 20.0));
    assert_eq!(o.close_topmost_overlay(), Some(Overlay::ContextMenu));
    assert!(o.context_menu_target.is_none() && o.context_menu_pos.is_none());
    assert!(o.env_dialog && o.settings_popover);
    assert_eq!(o.close_topmost_overlay(), Some(Overlay::EnvDialog));
    assert_eq!(o.close_topmost_overlay(), Some(Overlay::SettingsPopover));
    assert_eq!(o.close_topmost_overlay(), None);
}

#[test]
fn close_topmost_order() {
    let mut o = none_open();
    o.save_request.open("n".to_string(), draft());
    o.shortcuts_popup = true;
    o.code_gen = true;
    o.move_dialog = true;
    o.folder_dialog = true;
    assert_eq!(o.close_topmost_overlay(), Some(Overlay::CodeGen));
    assert_eq!(o.close_topmost_overlay(), Some(Overlay::MoveDialog));
    assert_eq!(o.close_topmost_overlay(), Some(Overlay::FolderDialog));
    assert_eq!(o.close_topmost_overlay(), Some(Overlay::SaveRequestDialog));
    assert!(!o.save_request.visible && o.save_request.pending_request.is_none());
    assert_eq!(o.save_request.name, "n");
    assert_eq!(o.close_topmost_overlay(), Some(Overlay::ShortcutsPopup));
    assert_eq!(o.close_topmost_overlay(), None);
}

#[test]
fn auto_save_commands() {
    assert_eq!(update_auto_save_task(true, false), AutoSaveCommand::Start);
    assert_eq!(update_auto_save_task(true, true), AutoSaveCommand::Keep);
    assert_eq!(update_auto_save_task(false, true), AutoSaveCommand::Stop);
    assert_eq!(update_auto_save_task(false, false), AutoSaveCommand::Stop);
}
