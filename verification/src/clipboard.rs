//! Copying text to the system clipboard.
use vstd::prelude::*;

verus! {

/// `arboard::Clipboard`, the handle of the system clipboard, carried as it is.
#[verifier::external_type_specification]
#[verifier::external_body]
pub struct ExClipboard(arboard::Clipboard);

/// `arboard::Clipboard::set_text`: puts the text on the clipboard; the flag is `true` when it
/// reports success. Whether it succeeds depends on the system, so nothing is stated of the
/// flag; the second part records the text handed to the call.
#[verifier::external_body]
fn clipboard_set_text(clipboard: &mut arboard::Clipboard, text: &str) -> (r: (bool, Ghost<Seq<char>>))
    ensures
        r.1@ == text@,
{
    (clipboard.set_text(text.to_string()).is_ok(), Ghost(text@))
}

/// Copies text to the clipboard, when one is available. The flag is `true` when it was
/// copied; the second part is the text handed to the clipboard (`None` when there is none, and
/// then the flag is `false`). A clipboard stays available.
pub fn copy_to_clipboard(clipboard: &mut Option<arboard::Clipboard>, text: &str) -> (r: (
    bool,
    Ghost<Option<Seq<char>>>,
))
    ensures
        (*old(clipboard)) is None ==> !r.0 && r.1@ is None,
        (*old(clipboard)) is Some ==> r.1@ == Some(text@),
        ((*final(clipboard)) is Some) == ((*old(clipboard)) is Some),
{
    match clipboard {
        Some(c) => {
            let (ok, handed) = clipboard_set_text(c, text);
            (ok, Ghost(Some(handed@)))
        },
        None => (false, Ghost(None)),
    }
}

} // verus!
