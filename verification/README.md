# apipost_ui

The request-building core of a desktop HTTP client, written in Verus with its behaviour
stated in contracts and proved.

`src/` is the library. It covers the request form (query parameters kept in step with the
URL bar, the header table, the body in its kinds and raw formats, form-data and url-encoded
rows, authorisation), the request that the form sends, the tabs and what each keeps, loading
saved requests and imported cURL commands, the dialogs' state (environments, folders, moving
items, saving a request, showing a request as code), the request settings, the guard that
keeps one request on its way at a time, the keyboard shortcuts, the folder tree, JSON formatting and colouring, the response body prepared for
display, and text helpers (display widths, line counts, sanitising). `src/outside.rs` holds
the calls into std and outside crates that vstd does not specify (percent-encoding, base64,
serde_json, path extensions, upper-casing), each with the contract its documentation gives.
The public `law_*` proof functions state properties that hold across calls: parameters written
into the URL read back the same, a tab saved and loaded gives the same request, highlighted
text keeps its characters and white space between tokens changes no colour, closing a tab
keeps the active one, and others.

`app/` is ordinary Rust around the library: the process-wide clipboard, pointer-driven
resizing and byte sizes (floating point), and the JSON form in which the open tabs are
stored (the library's types cannot carry serde's derives). Environment variables are read from
and written to their stored JSON in the library.

`tests/` exercises the library on concrete values.
