//! What a key press in the main window does: Esc closes the topmost layer, and the Ctrl
//! shortcuts send, open and close tabs, show sidebar panes and switch theme or language.
use vstd::prelude::*;
use crate::text::{chars_eq_str, chars_of, trim, trim_chars};

verus! {

/// What a key press asks for.
#[derive(PartialEq, Eq, Structural, Clone, Copy, Debug)]
pub enum KeyAction {
    /// Close the topmost open layer (Esc).
    CloseTopmostOverlay,
    /// Send the request (Ctrl+Enter, Ctrl+S).
    Send,
    /// Open a new tab (Ctrl+N).
    NewTab,
    /// Close the active tab (Ctrl+W).
    CloseTab,
    /// Show the history pane (Ctrl+H).
    ShowHistory,
    /// Show the environments pane (Ctrl+E).
    ShowEnvironments,
    /// Switch to the next theme (Ctrl+T).
    NextTheme,
    /// Switch to the other language (Ctrl+L).
    NextLanguage,
    /// The shortcut is taken, but there is nothing to do: sending with a blank URL, closing
    /// the last tab.
    Swallowed,
    /// The key is not a shortcut; it goes on to the focused element.
    Ignored,
}

/// What pressing `key` (with Ctrl held or not) does, given the URL typed, the number of tabs
/// and whether a layer is open.
pub open spec fn key_action_spec(
    key: Seq<char>,
    control: bool,
    url: Seq<char>,
    tab_count: nat,
    overlay_open: bool,
) -> KeyAction {
    if key == "escape"@ && !control && overlay_open {
        KeyAction::CloseTopmostOverlay
    } else if !control {
        KeyAction::Ignored
    } else if key == "enter"@ || key == "s"@ {
        if trim(url).len() > 0 {
            KeyAction::Send
        } else {
            KeyAction::Swallowed
        }
    } else if key == "n"@ {
        KeyAction::NewTab
    } else if key == "w"@ {
        if tab_count > 1 {
            KeyAction::CloseTab
        } else {
            KeyAction::Swallowed
        }
    } else if key == "h"@ {
        KeyAction::ShowHistory
    } else if key == "e"@ {
        KeyAction::ShowEnvironments
    } else if key == "t"@ {
        KeyAction::NextTheme
    } else if key == "l"@ {
        KeyAction::NextLanguage
    } else {
        KeyAction::Ignored
    }
}

/// What pressing `key` does (see `key_action_spec`).
pub fn key_action(key: &str, control: bool, url: &str, tab_count: usize, overlay_open: bool) -> (a: KeyAction)
    ensures
        a == key_action_spec(key@, control, url@, tab_count as nat, overlay_open),
{
    let k = chars_of(key);
    if chars_eq_str(&k, "escape") && !control && overlay_open {
        KeyAction::CloseTopmostOverlay
    } else if !control {
        KeyAction::Ignored
    } else if chars_eq_str(&k, "enter") || chars_eq_str(&k, "s") {
        if trim_chars(&chars_of(url)).len() > 0 {
            KeyAction::Send
        } else {
            KeyAction::Swallowed
        }
    } else if chars_eq_str(&k, "n") {
        KeyAction::NewTab
    } else if chars_eq_str(&k, "w") {
        if tab_count > 1 {
            KeyAction::CloseTab
        } else {
            KeyAction::Swallowed
        }
    } else if chars_eq_str(&k, "h") {
        KeyAction::ShowHistory
    } else if chars_eq_str(&k, "e") {
        KeyAction::ShowEnvironments
    } else if chars_eq_str(&k, "t") {
        KeyAction::NextTheme
    } else if chars_eq_str(&k, "l") {
        KeyAction::NextLanguage
    } else {
        KeyAction::Ignored
    }
}

/// The theme after `current` in `names`, going round; the first one when `current` is not
/// among them.
pub fn next_theme_index(names: &Vec<String>, current: &str) -> (i: usize)
    requires
        names@.len() > 0,
    ensures
        i < names@.len(),
        (exists|j: int| 0 <= j < names@.len() && names@[j]@ == current@ && (forall|k: int|
            0 <= k < j ==> names@[k]@ != current@) && i == (j + 1) % (names@.len() as int)) || (
        (forall|k: int| 0 <= k < names@.len() ==> names@[k]@ != current@) && i == 1int % (
        names@.len() as int)),
{
    let mut j: usize = 0;
    while j < names.len()
        invariant
            j <= names@.len(),
            forall|k: int| 0 <= k < j ==> names@[k]@ != current@,
        decreases names@.len() - j,
    {
        if chars_eq_str(&chars_of(names[j].as_str()), current) {
            let n = names.len();
            let r = if j + 1 == n { 0 } else { j + 1 };
            proof {
                if j + 1 == n {
                    vstd::arithmetic::div_mod::lemma_mod_self_0(n as int);
                } else {
                    vstd::arithmetic::div_mod::lemma_small_mod((j + 1) as nat, n as nat);
                }
                assert(names@[j as int]@ == current@);
            }
            return r;
        }
        j += 1;
    }
    proof {
        if names@.len() == 1 {
            vstd::arithmetic::div_mod::lemma_mod_self_0(1);
        } else {
            vstd::arithmetic::div_mod::lemma_small_mod(1, names@.len() as nat);
        }
    }
    if names.len() == 1 { 0 } else { 1 }
}

/// The language switched to: English from Chinese, Chinese from any other.
pub open spec fn next_language_spec(current: Seq<char>) -> Seq<char> {
    if current == "zh-CN"@ {
        "en-US"@
    } else {
        "zh-CN"@
    }
}

/// The language switched to (see `next_language_spec`).
pub fn next_language(current: &str) -> (r: String)
    ensures
        r@ == next_language_spec(current@),
{
    if chars_eq_str(&chars_of(current), "zh-CN") {
        "en-US".to_string()
    } else {
        "zh-CN".to_string()
    }
}

} // verus!
