//! The state of the dialog that shows a request as code in one of several languages and
//! copies that code to the clipboard.
use vstd::prelude::*;
use crate::send::{opt_view, HttpRequest};

verus! {

/// The code dialog: whether it is open, the request shown, the language chosen, the code
/// shown for it, the message shown after a copy, and whether the editor still has to be given
/// the new code.
pub struct CodeGenDialogState {
    pub open: bool,
    pub request: Option<HttpRequest>,
    pub selected_language: String,
    pub generated_code: String,
    pub toast_message: Option<String>,
    pub needs_update: bool,
}

/// The language the dialog opens with.
pub open spec fn first_language() -> Seq<char> {
    "curl"@
}

impl CodeGenDialogState {
    /// A closed dialog with no request, cURL chosen and no code.
    pub fn new() -> (s: Self)
        ensures
            !s.open,
            s.request is None,
            s.selected_language@ == first_language(),
            s.generated_code@.len() == 0,
            s.toast_message is None,
            !s.needs_update,
    {
        CodeGenDialogState {
            open: false,
            request: None,
            selected_language: "curl".to_string(),
            generated_code: String::new(),
            toast_message: None,
            needs_update: false,
        }
    }

    /// Opens the dialog on `request`, with cURL chosen and `curl_code` (the request written as
    /// a cURL command) shown; the message of an earlier copy goes away.
    pub fn open_dialog(&mut self, request: HttpRequest, curl_code: String)
        ensures
            final(self).open,
            final(self).request == Some(request),
            final(self).selected_language@ == first_language(),
            final(self).generated_code == curl_code,
            final(self).toast_message is None,
            final(self).needs_update,
    {
        self.request = Some(request);
        self.selected_language = "curl".to_string();
        self.generated_code = curl_code;
        self.open = true;
        self.toast_message = None;
        self.needs_update = true;
    }

    /// Chooses `language`; with a request shown, `code` (the request written in that
    /// language) replaces the code shown. Either way the editor is to be given the code again.
    pub fn switch_language(&mut self, language: &str, code: String)
        ensures
            final(self).selected_language@ == language@,
            old(self).request is Some ==> final(self).generated_code == code,
            old(self).request is None ==> final(self).generated_code == old(self).generated_code,
            final(self).request == old(self).request,
            final(self).open == old(self).open,
            final(self).toast_message == old(self).toast_message,
            final(self).needs_update,
    {
        self.selected_language = language.to_string();
        if self.request.is_some() {
            self.generated_code = code;
        }
        self.needs_update = true;
    }

    /// Copies the code shown to the clipboard and sets the message key that tells whether it
    /// was copied: `code.copied`, or `clipboard.copy_failed` (always so without a clipboard).
    /// The second part of the result is the text handed to the clipboard: the code shown, when a
    /// clipboard is available.
    pub fn copy_to_clipboard(&mut self, clipboard: &mut Option<arboard::Clipboard>) -> (r: (
        bool,
        Ghost<Option<Seq<char>>>,
    ))
        ensures
            (*old(clipboard)) is None ==> !r.0 && r.1@ is None,
            (*old(clipboard)) is Some ==> r.1@ == Some(old(self).generated_code@),
            ((*final(clipboard)) is Some) == ((*old(clipboard)) is Some),
            opt_view(final(self).toast_message) == Some(
                if r.0 { "code.copied"@ } else { "clipboard.copy_failed"@ },
            ),
            final(self).generated_code == old(self).generated_code,
            final(self).selected_language == old(self).selected_language,
            final(self).request == old(self).request,
            final(self).open == old(self).open,
            final(self).needs_update == old(self).needs_update,
    {
        let r = crate::clipboard::copy_to_clipboard(clipboard, self.generated_code.as_str());
        if r.0 {
            self.toast_message = Some("code.copied".to_string());
        } else {
            self.toast_message = Some("clipboard.copy_failed".to_string());
        }
        r
    }
}

} // verus!
