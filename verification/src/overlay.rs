//! The layers that can be open over the main view and closing the topmost one (Esc), and
//! starting or stopping the periodic auto-save.
use vstd::prelude::*;
use crate::loading::SaveRequestDialog;

verus! {

/// A layer over the main view, from the highest to the lowest.
#[derive(PartialEq, Eq, Structural, Clone, Copy, Debug)]
pub enum Overlay {
    ContextMenu,
    CodeGen,
    MoveDialog,
    FolderDialog,
    EnvDialog,
    SaveRequestDialog,
    ShortcutsPopup,
    SettingsPopover,
}

/// Which layers are open. The context menu is open while it has a target (`T`, the item it was
/// opened on) and is shown at a position (`P`); the save dialog is open while it is visible.
pub struct Overlays<T, P> {
    pub context_menu_target: Option<T>,
    pub context_menu_pos: Option<P>,
    pub code_gen: bool,
    pub move_dialog: bool,
    pub folder_dialog: bool,
    pub env_dialog: bool,
    pub save_request: SaveRequestDialog,
    pub shortcuts_popup: bool,
    pub settings_popover: bool,
}

impl<T, P> Overlays<T, P> {
    /// Whether a layer is open.
    pub open spec fn is_open(self, o: Overlay) -> bool {
        match o {
            Overlay::ContextMenu => self.context_menu_target is Some,
            Overlay::CodeGen => self.code_gen,
            Overlay::MoveDialog => self.move_dialog,
            Overlay::FolderDialog => self.folder_dialog,
            Overlay::EnvDialog => self.env_dialog,
            Overlay::SaveRequestDialog => self.save_request.visible,
            Overlay::ShortcutsPopup => self.shortcuts_popup,
            Overlay::SettingsPopover => self.settings_popover,
        }
    }

    /// The highest open layer, if any.
    pub open spec fn topmost(self) -> Option<Overlay> {
        if self.context_menu_target is Some {
            Some(Overlay::ContextMenu)
        } else if self.code_gen {
            Some(Overlay::CodeGen)
        } else if self.move_dialog {
            Some(Overlay::MoveDialog)
        } else if self.folder_dialog {
            Some(Overlay::FolderDialog)
        } else if self.env_dialog {
            Some(Overlay::EnvDialog)
        } else if self.save_request.visible {
            Some(Overlay::SaveRequestDialog)
        } else if self.shortcuts_popup {
            Some(Overlay::ShortcutsPopup)
        } else if self.settings_popover {
            Some(Overlay::SettingsPopover)
        } else {
            None
        }
    }

    /// Closes the highest open layer and says which one it was (`None` when none is open, and
    /// then nothing changes). Only that layer closes: closing the context menu drops its target
    /// and position, closing the save dialog drops the request waiting to be saved.
    pub fn close_topmost_overlay(&mut self) -> (closed: Option<Overlay>)
        ensures
            closed == old(self).topmost(),
            forall|o: Overlay| #[trigger] final(self).is_open(o) == (old(self).is_open(o)
                && closed != Some(o)),
            closed == Some(Overlay::ContextMenu) ==> final(self).context_menu_target is None
                && final(self).context_menu_pos is None,
            closed != Some(Overlay::ContextMenu) ==> final(self).context_menu_target
                == old(self).context_menu_target && final(self).context_menu_pos
                == old(self).context_menu_pos,
            closed == Some(Overlay::SaveRequestDialog) ==> {
                &&& final(self).save_request.pending_request is None
                &&& final(self).save_request.name == old(self).save_request.name
                &&& final(self).save_request.needs_refresh == old(self).save_request.needs_refresh
            },
            closed != Some(Overlay::SaveRequestDialog) ==> final(self).save_request
                == old(self).save_request,
    {
        if self.context_menu_target.is_some() {
            self.context_menu_target = None;
            self.context_menu_pos = None;
            Some(Overlay::ContextMenu)
        } else if self.code_gen {
            self.code_gen = false;
            Some(Overlay::CodeGen)
        } else if self.move_dialog {
            self.move_dialog = false;
            Some(Overlay::MoveDialog)
        } else if self.folder_dialog {
            self.folder_dialog = false;
            Some(Overlay::FolderDialog)
        } else if self.env_dialog {
            self.env_dialog = false;
            Some(Overlay::EnvDialog)
        } else if self.save_request.visible {
            self.save_request.visible = false;
            self.save_request.pending_request = None;
            Some(Overlay::SaveRequestDialog)
        } else if self.shortcuts_popup {
            self.shortcuts_popup = false;
            Some(Overlay::ShortcutsPopup)
        } else if self.settings_popover {
            self.settings_popover = false;
            Some(Overlay::SettingsPopover)
        } else {
            None
        }
    }
}

/// Law: the layer closed is open and no open layer is above it; nothing is closed only when
/// no layer is open.
pub proof fn law_close_topmost<T, P>(s: Overlays<T, P>)
    ensures
        s.topmost() is None <==> forall|o: Overlay| !#[trigger] s.is_open(o),
        match s.topmost() {
            Some(t) => s.is_open(t) && forall|o: Overlay| #[trigger] s.is_open(o) ==> rank(t) <= rank(o),
            None => true,
        },
{
    if s.topmost() is None {
        assert forall|o: Overlay| !#[trigger] s.is_open(o) by {
            match o {
                Overlay::ContextMenu => {},
                Overlay::CodeGen => {},
                Overlay::MoveDialog => {},
                Overlay::FolderDialog => {},
                Overlay::EnvDialog => {},
                Overlay::SaveRequestDialog => {},
                Overlay::ShortcutsPopup => {},
                Overlay::SettingsPopover => {},
            }
        }
    } else {
        let t = s.topmost()->0;
        assert(s.is_open(t));
        assert forall|o: Overlay| #[trigger] s.is_open(o) implies rank(t) <= rank(o) by {
            match o {
                Overlay::ContextMenu => {},
                Overlay::CodeGen => {},
                Overlay::MoveDialog => {},
                Overlay::FolderDialog => {},
                Overlay::EnvDialog => {},
                Overlay::SaveRequestDialog => {},
                Overlay::ShortcutsPopup => {},
                Overlay::SettingsPopover => {},
            }
        }
    }
}

/// The height of a layer: 0 for the highest.
pub open spec fn rank(o: Overlay) -> nat {
    match o {
        Overlay::ContextMenu => 0,
        Overlay::CodeGen => 1,
        Overlay::MoveDialog => 2,
        Overlay::FolderDialog => 3,
        Overlay::EnvDialog => 4,
        Overlay::SaveRequestDialog => 5,
        Overlay::ShortcutsPopup => 6,
        Overlay::SettingsPopover => 7,
    }
}

/// What to do with the periodic auto-save.
#[derive(PartialEq, Eq, Structural, Clone, Copy, Debug)]
pub enum AutoSaveCommand {
    /// Start saving the workspace every 30 seconds.
    Start,
    /// Stop the periodic save.
    Stop,
    /// Leave it as it is.
    Keep,
}

/// Whether the periodic auto-save has to start or stop: it starts when auto-save is on and
/// it is not running, stops when auto-save is off, and is left alone otherwise.
pub fn update_auto_save_task(auto_save_enabled: bool, task_running: bool) -> (c: AutoSaveCommand)
    ensures
        c == (if auto_save_enabled && !task_running {
            AutoSaveCommand::Start
        } else if !auto_save_enabled {
            AutoSaveCommand::Stop
        } else {
            AutoSaveCommand::Keep
        }),
{
    if auto_save_enabled && !task_running {
        AutoSaveCommand::Start
    } else if !auto_save_enabled {
        AutoSaveCommand::Stop
    } else {
        AutoSaveCommand::Keep
    }
}

} // verus!
