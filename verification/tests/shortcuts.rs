use apipost_ui::shortcuts::{key_action, next_language, next_theme_index, KeyAction};

#[test]
fn escape_closes_a_layer_only_when_one_is_open() {
    assert_eq!(key_action("escape", false, "", 1, true), KeyAction::CloseTopmostOverlay);
    assert_eq!(key_action("escape", false, "", 1, false), KeyAction::Ignored);
    assert_eq!(key_action("escape", true, "", 1, true), KeyAction::Ignored);
}

#[test]
fn control_shortcuts() {
    assert_eq!(key_action("enter", true, "http://x", 1, false), KeyAction::Send);
    assert_eq!(key_action("s", true, " a ", 1, false), KeyAction::Send);
    assert_eq!(key_action("s", true, "  ", 1, false), KeyAction::Swallowed);
    assert_eq!(key_action("s", false, "http://x", 1, false), KeyAction::Ignored);
    assert_eq!(key_action("n", true, "", 1, false), KeyAction::NewTab);
    assert_eq!(key_action("w", true, "", 2, false), KeyAction::CloseTab);
    assert_eq!(key_action("w", true, "", 1, false), KeyAction::Swallowed);
    assert_eq!(key_action("h", true, "", 1, false), KeyAction::ShowHistory);
    assert_eq!(key_action("e", true, "", 1, false), KeyAction::ShowEnvironments);
    assert_eq!(key_action("t", true, "", 1, false), KeyAction::NextTheme);
    assert_eq!(key_action("l", true, "", 1, false), KeyAction::NextLanguage);
    assert_eq!(key_action("x", true, "", 1, false), KeyAction::Ignored);
}

#[test]
fn theme_and_language_go_round() {
    let names: Vec<String> = vec!["dark".to_string(), "light".to_string(), "solar".to_string()];
    assert_eq!(next_theme_index(&names, "dark"), 1);
    assert_eq!(next_theme_index(&names, "solar"), 0);
    assert_eq!(next_theme_index(&names, "unknown"), 1);
    assert_eq!(next_theme_index(&vec!["only".to_string()], "only"), 0);
    assert_eq!(next_language("zh-CN"), "en-US");
    assert_eq!(next_language("en-US"), "zh-CN");
}
