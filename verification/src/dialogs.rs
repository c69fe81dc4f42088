//! The state of the dialogs: editing an environment's variables or the global ones, creating
//! and renaming folders and requests, and moving an item to another folder.
use vstd::prelude::*;
use crate::json::JsonValue;
use crate::send::pair_views;
use crate::outside::{json_from_str, json_to_string, spec_json_from_str, spec_json_to_string};
use crate::text::{chars_eq, chars_of, trim, trim_chars};

verus! {

/// The number of variable rows each section of the environment dialog has.
pub const MAX_VAR_SLOTS: usize = 15;

/// An environment opened for editing: its id, its name and its variables as read from its
/// stored text (`None` when that text could not be read).
pub struct EnvToEdit {
    pub id: String,
    pub name: String,
    pub vars: Option<Vec<(String, String)>>,
}

/// An environment as the list of environments shows it: its id, its name and whether it is
/// the active one.
pub struct EnvironmentRow {
    pub id: String,
    pub name: String,
    pub is_active: bool,
}

/// Row `i` is the first active environment of the list.
pub open spec fn is_first_active(envs: Seq<EnvironmentRow>, i: int) -> bool {
    &&& 0 <= i < envs.len()
    &&& envs[i].is_active
    &&& forall|j: int| 0 <= j < i ==> !(#[trigger] envs[j]).is_active
}

/// No environment of the list is active.
pub open spec fn none_active(envs: Seq<EnvironmentRow>) -> bool {
    forall|j: int| 0 <= j < envs.len() ==> !(#[trigger] envs[j]).is_active
}

fn first_active_index(envs: &Vec<EnvironmentRow>) -> (r: Option<usize>)
    ensures
        match r {
            Some(i) => is_first_active(envs@, i as int),
            None => none_active(envs@),
        },
{
    let mut i: usize = 0;
    while i < envs.len()
        invariant
            i <= envs@.len(),
            forall|j: int| 0 <= j < i ==> !(#[trigger] envs@[j]).is_active,
        decreases envs@.len() - i,
    {
        if envs[i].is_active {
            return Some(i);
        }
        i += 1;
    }
    None
}

/// The id of the first active environment, or `None` when none is active.
pub fn active_env_id(envs: &Vec<EnvironmentRow>) -> (r: Option<String>)
    ensures
        match r {
            Some(id) => exists|i: int| is_first_active(envs@, i) && id@ == envs@[i].id@,
            None => none_active(envs@),
        },
{
    match first_active_index(envs) {
        Some(i) => Some(envs[i].id.clone()),
        None => None,
    }
}

/// The name of the first active environment, or `None` when none is active.
pub fn active_environment_name(envs: &Vec<EnvironmentRow>) -> (r: Option<String>)
    ensures
        match r {
            Some(name) => exists|i: int| is_first_active(envs@, i) && name@ == envs@[i].name@,
            None => none_active(envs@),
        },
{
    match first_active_index(envs) {
        Some(i) => Some(envs[i].name.clone()),
        None => None,
    }
}

/// The text of a JSON string value.
pub open spec fn str_text(v: JsonValue) -> Seq<char> {
    match v {
        JsonValue::Str(t) => t@,
        _ => Seq::empty(),
    }
}

/// The entries of a JSON object whose values are all strings, as (key, value) texts in the
/// object's order; `None` for any other value.
pub open spec fn string_object_pairs(v: JsonValue) -> Option<Seq<(Seq<char>, Seq<char>)>> {
    match v {
        JsonValue::Object(m) => if forall|i: int| 0 <= i < m@.len() ==> (#[trigger] m@[i]).1 is Str {
            Some(m@.map_values(|e: (String, JsonValue)| (e.0@, str_text(e.1))))
        } else {
            None
        },
        _ => None,
    }
}

/// The variables stored as `text`: its entries when it parses as a JSON object whose values
/// are all strings, else `None`.
pub open spec fn stored_vars(text: Seq<char>) -> Option<Seq<(Seq<char>, Seq<char>)>> {
    match spec_json_from_str(text) {
        Ok(v) => string_object_pairs(v),
        Err(_) => None,
    }
}

/// Reads an environment's stored variables (see `stored_vars`).
pub fn env_vars_from_json(text: &str) -> (r: Option<Vec<(String, String)>>)
    ensures
        match r {
            Some(vs) => stored_vars(text@) == Some(vs@.map_values(|p: (String, String)| (p.0@, p.1@))),
            None => stored_vars(text@) is None,
        },
{
    let parsed = json_from_str(text);
    match parsed {
        Ok(JsonValue::Object(m)) => {
            let ghost whole = JsonValue::Object(m);
            assert(spec_json_from_str(text@) == Ok::<JsonValue, Seq<char>>(whole));
            let mut out: Vec<(String, String)> = Vec::new();
            let mut i: usize = 0;
            while i < m.len()
                invariant
                    i <= m@.len(),
                    whole == JsonValue::Object(m),
                    spec_json_from_str(text@) == Ok::<JsonValue, Seq<char>>(whole),
                    forall|j: int| 0 <= j < i ==> (#[trigger] m@[j]).1 is Str,
                    out@.map_values(|p: (String, String)| (p.0@, p.1@)) == m@.take(i as int).map_values(
                        |e: (String, JsonValue)| (e.0@, str_text(e.1)),
                    ),
                decreases m@.len() - i,
            {
                match &m[i].1 {
                    JsonValue::Str(t) => {
                        let ghost before = out@;
                        let k = m[i].0.clone();
                        let v = t.clone();
                        out.push((k, v));
                        assert(out@ =~= before.push((k, v)));
                        assert(str_text(m@[i as int].1) == t@);
                        assert(k@ == m@[i as int].0@);
                        assert(out@.map_values(|p: (String, String)| (p.0@, p.1@)) =~= before.map_values(
                            |p: (String, String)| (p.0@, p.1@),
                        ).push((k@, v@)));
                        assert(m@.take(i + 1) =~= m@.take(i as int).push(m@[i as int]));
                        assert(out@.map_values(|p: (String, String)| (p.0@, p.1@)) =~= m@.take(i + 1).map_values(
                            |e: (String, JsonValue)| (e.0@, str_text(e.1)),
                        ));
                    },
                    _ => {
                        assert(!(m@[i as int].1 is Str));
                        return None;
                    },
                }
                i += 1;
            }
            assert(m@.take(m@.len() as int) =~= m@);
            Some(out)
        },
        _ => None,
    }
}

impl EnvToEdit {
    /// An environment opened for editing from what is stored of it: its id, its name and its
    /// variables' JSON text (see `env_vars_from_json`).
    pub fn from_stored(id: &str, name: &str, variables_json: &str) -> (e: EnvToEdit)
        ensures
            e.id@ == id@,
            e.name@ == name@,
            match e.vars {
                Some(vs) => stored_vars(variables_json@) == Some(vs@.map_values(|p: (String, String)| (p.0@, p.1@))),
                None => stored_vars(variables_json@) is None,
            },
    {
        EnvToEdit { id: id.to_string(), name: name.to_string(), vars: env_vars_from_json(variables_json) }
    }
}

/// The variables with, for each key, only its last row, in the order of those last rows.
pub open spec fn last_rows(vs: Seq<(Seq<char>, Seq<char>)>) -> Seq<(Seq<char>, Seq<char>)>
    decreases vs.len(),
{
    if vs.len() == 0 {
        Seq::empty()
    } else if exists|j: int| 1 <= j < vs.len() && (#[trigger] vs[j]).0 == vs[0].0 {
        last_rows(vs.drop_first())
    } else {
        seq![vs[0]] + last_rows(vs.drop_first())
    }
}

/// A JSON object whose values are all strings with the given entries.
pub open spec fn is_string_object(v: JsonValue, entries: Seq<(Seq<char>, Seq<char>)>) -> bool {
    string_object_pairs(v) == Some(entries)
}

/// The JSON text variables are stored as: a JSON object of their keys and values, a later row
/// with the same key taking the place of an earlier one (serde_json's compact printing; empty
/// text when printing fails).
pub fn env_vars_json(vars: &Vec<(String, String)>) -> (r: String)
    ensures
        exists|v: JsonValue| #[trigger] is_string_object(v, last_rows(pair_views(vars@)))
            && r@ == match spec_json_to_string(v) {
            Some(t) => t,
            None => Seq::empty(),
        },
{
    let ghost vv = pair_views(vars@);
    let mut entries: Vec<(String, JsonValue)> = Vec::new();
    let mut i: usize = vars.len();
    // walk from the end, keeping a row only when no later row has its key
    while i > 0
        invariant
            i <= vars@.len(),
            vv == pair_views(vars@),
            forall|j: int| 0 <= j < entries@.len() ==> (#[trigger] entries@[j]).1 is Str,
            entries@.map_values(|e: (String, JsonValue)| (e.0@, str_text(e.1))) == last_rows(vv.skip(i as int)),
        decreases i,
    {
        i -= 1;
        let ki = chars_of(vars[i].0.as_str());
        let mut later = false;
        let mut j: usize = i + 1;
        while j < vars.len()
            invariant
                i < j <= vars@.len(),
                ki@ == vars@[i as int].0@,
                vv == pair_views(vars@),
                later == exists|k: int| i + 1 <= k < j && (#[trigger] vv[k]).0 == vv[i as int].0,
            decreases vars@.len() - j,
        {
            if chars_eq(&ki, &chars_of(vars[j].0.as_str())) {
                later = true;
            }
            proof {
                assert(vv[j as int].0 == vars@[j as int].0@);
            }
            j += 1;
        }
        let ghost tail = vv.skip(i as int);
        assert(tail.drop_first() =~= vv.skip(i + 1));
        assert(tail[0] == vv[i as int]);
        assert((exists|k: int| 1 <= k < tail.len() && (#[trigger] tail[k]).0 == tail[0].0) == later) by {
            if later {
                let k = choose|k: int| i + 1 <= k < vars@.len() && (#[trigger] vv[k]).0 == vv[i as int].0;
                assert(tail[k - i] == vv[k]);
            }
            if exists|k: int| 1 <= k < tail.len() && (#[trigger] tail[k]).0 == tail[0].0 {
                let k = choose|k: int| 1 <= k < tail.len() && (#[trigger] tail[k]).0 == tail[0].0;
                assert(tail[k] == vv[k + i]);
            }
        }
        if !later {
            let ghost before = entries@;
            let e = (vars[i].0.clone(), JsonValue::Str(vars[i].1.clone()));
            let mut ne: Vec<(String, JsonValue)> = Vec::new();
            ne.push(e);
            ne.append(&mut entries);
            entries = ne;
            assert(entries@ =~= seq![e] + before);
            assert(entries@.map_values(|e: (String, JsonValue)| (e.0@, str_text(e.1))) =~= seq![
                (vv[i as int].0, vv[i as int].1)] + before.map_values(|e: (String, JsonValue)| (e.0@, str_text(e.1))));
        }
    }
    assert(vv.skip(0) =~= vv);
    let obj = JsonValue::Object(entries);
    assert(is_string_object(obj, last_rows(vv)));
    match json_to_string(&obj) {
        Some(t) => t,
        None => String::new(),
    }
}

/// The environment dialog: whether it is shown, what it edits, the name typed, and two
/// sections of variable rows (the current environment's and the global ones), each with the
/// number of rows in use.
pub struct EnvDialogState {
    pub visible: bool,
    pub is_edit: bool,
    pub is_global_only: bool,
    pub env_id: Option<String>,
    pub name: String,
    pub current_var_count: usize,
    pub current_vars: Vec<(String, String)>,
    pub global_var_count: usize,
    pub global_vars: Vec<(String, String)>,
    /// Set once something was saved; the main view then reloads its lists.
    pub needs_refresh: bool,
    /// Set when saving was refused for an empty name.
    pub name_error: bool,
}

/// A row holds the given key and value.
pub open spec fn slot_is(s: (String, String), k: Seq<char>, v: Seq<char>) -> bool {
    s.0@ == k && s.1@ == v
}

/// A row with empty key and value.
pub open spec fn slot_empty(s: (String, String)) -> bool {
    s.0@.len() == 0 && s.1@.len() == 0
}

/// The variables the rows in use give: those whose key is not blank, in row order.
pub open spec fn collected(slots: Seq<(String, String)>) -> Seq<(Seq<char>, Seq<char>)>
    decreases slots.len(),
{
    if slots.len() == 0 {
        Seq::empty()
    } else {
        let prev = collected(slots.drop_last());
        if trim(slots.last().0@).len() > 0 {
            prev.push((slots.last().0@, slots.last().1@))
        } else {
            prev
        }
    }
}

/// The rows after row `i` of the `count` in use was removed: the rows after it move up by
/// one, the last row in use is emptied, the rest stay.
pub open spec fn rows_removed(new: Seq<(String, String)>, old: Seq<(String, String)>, count: int, i: int) -> bool {
    &&& new.len() == old.len()
    &&& forall|j: int| 0 <= j < i ==> new[j] == old[j]
    &&& forall|j: int| i <= j < count - 1 ==> new[j] == old[j + 1]
    &&& slot_empty(new[count - 1])
    &&& forall|j: int| count <= j < old.len() ==> new[j] == old[j]
}

fn empty_slot() -> (s: (String, String))
    ensures
        slot_empty(s),
{
    (String::new(), String::new())
}

fn set_slot(slots: &mut Vec<(String, String)>, i: usize, s: (String, String))
    requires
        i < old(slots)@.len(),
    ensures
        final(slots)@ == old(slots)@.update(i as int, s),
{
    slots.set(i, s);
}

fn empty_slots() -> (v: Vec<(String, String)>)
    ensures
        v@.len() == MAX_VAR_SLOTS,
        forall|j: int| 0 <= j < MAX_VAR_SLOTS ==> slot_empty(#[trigger] v@[j]),
{
    let mut v: Vec<(String, String)> = Vec::new();
    let mut i: usize = 0;
    while i < MAX_VAR_SLOTS
        invariant
            i <= MAX_VAR_SLOTS,
            v@.len() == i,
            forall|j: int| 0 <= j < i ==> slot_empty(#[trigger] v@[j]),
        decreases MAX_VAR_SLOTS - i,
    {
        v.push(empty_slot());
        i += 1;
    }
    v
}

/// Empties rows `from` up to the end.
fn clear_from(slots: &mut Vec<(String, String)>, from: usize)
    requires
        from <= old(slots)@.len(),
    ensures
        final(slots)@.len() == old(slots)@.len(),
        forall|j: int| 0 <= j < from ==> final(slots)@[j] == old(slots)@[j],
        forall|j: int| from <= j < old(slots)@.len() ==> slot_empty(#[trigger] final(slots)@[j]),
{
    let mut i = from;
    while i < slots.len()
        invariant
            from <= i <= slots@.len() == old(slots)@.len(),
            forall|j: int| 0 <= j < from ==> slots@[j] == old(slots)@[j],
            forall|j: int| from <= j < i ==> slot_empty(#[trigger] slots@[j]),
        decreases slots@.len() - i,
    {
        set_slot(slots, i, empty_slot());
        i += 1;
    }
}

/// Writes the first pairs of `vars` (as many as there are rows) into the rows.
fn fill_from(slots: &mut Vec<(String, String)>, vars: &Vec<(String, String)>) -> (n: usize)
    ensures
        n == if vars@.len() < old(slots)@.len() { vars@.len() as int } else { old(slots)@.len() as int },
        final(slots)@.len() == old(slots)@.len(),
        forall|j: int| 0 <= j < n ==> slot_is(#[trigger] final(slots)@[j], vars@[j].0@, vars@[j].1@),
        forall|j: int| n <= j < old(slots)@.len() ==> #[trigger] final(slots)@[j] == old(slots)@[j],
{
    let mut i: usize = 0;
    while i < vars.len() && i < slots.len()
        invariant
            i <= vars@.len(),
            i <= slots@.len() == old(slots)@.len(),
            forall|j: int| 0 <= j < i ==> slot_is(#[trigger] slots@[j], vars@[j].0@, vars@[j].1@),
            forall|j: int| i <= j < old(slots)@.len() ==> #[trigger] slots@[j] == old(slots)@[j],
        decreases vars@.len() - i,
    {
        set_slot(slots, i, (vars[i].0.clone(), vars[i].1.clone()));
        i += 1;
    }
    i
}

fn collect_rows(slots: &Vec<(String, String)>, count: usize) -> (r: Vec<(String, String)>)
    requires
        count <= slots@.len(),
    ensures
        r@.map_values(|p: (String, String)| (p.0@, p.1@)) == collected(slots@.take(count as int)),
{
    let mut r: Vec<(String, String)> = Vec::new();
    let mut i: usize = 0;
    while i < count
        invariant
            i <= count <= slots@.len(),
            r@.map_values(|p: (String, String)| (p.0@, p.1@)) == collected(slots@.take(i as int)),
        decreases count - i,
    {
        assert(slots@.take(i + 1).drop_last() =~= slots@.take(i as int));
        let key = trim_chars(&chars_of(slots[i].0.as_str()));
        if key.len() > 0 {
            let ghost before = r@;
            r.push((slots[i].0.clone(), slots[i].1.clone()));
            assert(r@.map_values(|p: (String, String)| (p.0@, p.1@)) =~= before.map_values(
                |p: (String, String)| (p.0@, p.1@),
            ).push((slots@[i as int].0@, slots@[i as int].1@)));
        }
        i += 1;
    }
    r
}

fn remove_row(slots: &mut Vec<(String, String)>, count: usize, i: usize)
    requires
        i < count <= old(slots)@.len(),
    ensures
        rows_removed(final(slots)@, old(slots)@, count as int, i as int),
{
    let mut j = i;
    while j + 1 < count
        invariant
            i <= j < count <= slots@.len() == old(slots)@.len(),
            forall|k: int| 0 <= k < i ==> slots@[k] == old(slots)@[k],
            forall|k: int| i <= k < j ==> slots@[k] == old(slots)@[k + 1],
            forall|k: int| j <= k < old(slots)@.len() ==> slots@[k] == old(slots)@[k],
        decreases count - j,
    {
        let next = (slots[j + 1].0.clone(), slots[j + 1].1.clone());
        set_slot(slots, j, next);
        j += 1;
    }
    set_slot(slots, count - 1, empty_slot());
}

impl EnvDialogState {
    /// Each section has its rows, and no more of them in use.
    pub open spec fn wf(self) -> bool {
        &&& self.current_vars@.len() == MAX_VAR_SLOTS
        &&& self.global_vars@.len() == MAX_VAR_SLOTS
        &&& self.current_var_count <= MAX_VAR_SLOTS
        &&& self.global_var_count <= MAX_VAR_SLOTS
    }

    /// A hidden dialog with empty rows, none in use in the environment section and one in the
    /// global section.
    pub fn new() -> (s: EnvDialogState)
        ensures
            s.wf(),
            !s.visible && !s.is_edit && !s.is_global_only && !s.needs_refresh && !s.name_error,
            s.env_id is None,
            s.name@.len() == 0,
            s.current_var_count == 0,
            s.global_var_count == 1,
            forall|j: int| 0 <= j < MAX_VAR_SLOTS ==> slot_empty(#[trigger] s.current_vars@[j]),
            forall|j: int| 0 <= j < MAX_VAR_SLOTS ==> slot_empty(#[trigger] s.global_vars@[j]),
    {
        EnvDialogState {
            visible: false,
            is_edit: false,
            is_global_only: false,
            env_id: None,
            name: String::new(),
            current_var_count: 0,
            current_vars: empty_slots(),
            global_var_count: 1,
            global_vars: empty_slots(),
            needs_refresh: false,
            name_error: false,
        }
    }

    /// Shows the dialog for an environment (`None`: a new one). Every row of both sections is
    /// emptied first, so nothing of an earlier edit is left. An existing environment gives its id
    /// and name; when its variables could be read, the first 15 fill the rows and the rows in use
    /// are that many, at least one; when they could not, the number in use stays. A new
    /// environment has an empty name and one row in use. The global section has no row in use.
    pub fn load_from(&mut self, env: Option<&EnvToEdit>)
        requires
            old(self).wf(),
        ensures
            final(self).wf(),
            final(self).visible,
            final(self).is_edit == env is Some,
            !final(self).is_global_only,
            !final(self).name_error,
            final(self).needs_refresh == old(self).needs_refresh,
            match env {
                Some(e) => {
                    &&& final(self).env_id is Some && final(self).env_id->0@ == e.id@
                    &&& final(self).name@ == e.name@
                    &&& match e.vars {
                        Some(vs) => {
                            let n = if vs@.len() < MAX_VAR_SLOTS { vs@.len() as int } else { MAX_VAR_SLOTS as int };
                            &&& final(self).current_var_count == if n == 0 { 1 } else { n }
                            &&& forall|j: int| 0 <= j < n ==> slot_is(#[trigger] final(self).current_vars@[j], vs@[j].0@, vs@[j].1@)
                            &&& forall|j: int| n <= j < MAX_VAR_SLOTS ==> slot_empty(#[trigger] final(self).current_vars@[j])
                        },
                        None => {
                            &&& final(self).current_var_count == old(self).current_var_count
                            &&& forall|j: int| 0 <= j < MAX_VAR_SLOTS ==> slot_empty(#[trigger] final(self).current_vars@[j])
                        },
                    }
                },
                None => {
                    &&& final(self).env_id is None
                    &&& final(self).name@.len() == 0
                    &&& final(self).current_var_count == 1
                    &&& forall|j: int| 0 <= j < MAX_VAR_SLOTS ==> slot_empty(#[trigger] final(self).current_vars@[j])
                },
            },
            final(self).global_var_count == 0,
            forall|j: int| 0 <= j < MAX_VAR_SLOTS ==> slot_empty(#[trigger] final(self).global_vars@[j]),
    {
        self.is_global_only = false;
        self.name_error = false;
        clear_from(&mut self.current_vars, 0);
        match env {
            Some(e) => {
                self.env_id = Some(e.id.clone());
                self.is_edit = true;
                self.name = e.name.clone();
                match &e.vars {
                    Some(vs) => {
                        let n = fill_from(&mut self.current_vars, vs);
                        self.current_var_count = if n == 0 { 1 } else { n };
                    },
                    None => {},
                }
            },
            None => {
                self.env_id = None;
                self.is_edit = false;
                self.name = String::new();
                self.current_var_count = 1;
            },
        }
        self.global_var_count = 0;
        clear_from(&mut self.global_vars, 0);
        self.visible = true;
    }

    /// Shows the dialog for the global variables: no environment, an empty name, the
    /// environment section emptied with no row in use; every global row is emptied first, then
    /// the first 15 global variables fill the global rows, which are that many in use (at least
    /// one).
    pub fn open_global(&mut self, globals: &Vec<(String, String)>)
        requires
            old(self).wf(),
        ensures
            final(self).wf(),
            final(self).visible,
            final(self).is_global_only,
            !final(self).is_edit,
            !final(self).name_error,
            final(self).needs_refresh == old(self).needs_refresh,
            final(self).env_id is None,
            final(self).name@.len() == 0,
            final(self).current_var_count == 0,
            forall|j: int| 0 <= j < MAX_VAR_SLOTS ==> slot_empty(#[trigger] final(self).current_vars@[j]),
            ({
                let n = if globals@.len() < MAX_VAR_SLOTS { globals@.len() as int } else { MAX_VAR_SLOTS as int };
                &&& final(self).global_var_count == if n == 0 { 1 } else { n }
                &&& forall|j: int| 0 <= j < n ==> slot_is(#[trigger] final(self).global_vars@[j], globals@[j].0@, globals@[j].1@)
                &&& forall|j: int| n <= j < MAX_VAR_SLOTS ==> slot_empty(#[trigger] final(self).global_vars@[j])
            }),
    {
        self.is_global_only = true;
        self.is_edit = false;
        self.env_id = None;
        self.name_error = false;
        self.name = String::new();
        self.current_var_count = 0;
        clear_from(&mut self.current_vars, 0);
        clear_from(&mut self.global_vars, 0);
        let n = fill_from(&mut self.global_vars, globals);
        self.global_var_count = if n == 0 { 1 } else { n };
        self.visible = true;
    }

    /// The environment's variables: the rows in use whose key is not blank, in row order.
    pub fn collect_current_vars(&self) -> (r: Vec<(String, String)>)
        requires
            self.wf(),
        ensures
            r@.map_values(|p: (String, String)| (p.0@, p.1@)) == collected(self.current_vars@.take(self.current_var_count as int)),
    {
        collect_rows(&self.current_vars, self.current_var_count)
    }

    /// The global variables: the rows in use whose key is not blank, in row order.
    pub fn collect_global_vars(&self) -> (r: Vec<(String, String)>)
        requires
            self.wf(),
        ensures
            r@.map_values(|p: (String, String)| (p.0@, p.1@)) == collected(self.global_vars@.take(self.global_var_count as int)),
    {
        collect_rows(&self.global_vars, self.global_var_count)
    }

    /// Puts one more row of a section in use, when not all are.
    pub fn add_var_row(&mut self, is_current: bool)
        requires
            old(self).wf(),
        ensures
            final(self).wf(),
            final(self).current_vars == old(self).current_vars,
            final(self).global_vars == old(self).global_vars,
            final(self).current_var_count == if is_current && old(self).current_var_count < MAX_VAR_SLOTS {
                old(self).current_var_count + 1
            } else {
                old(self).current_var_count as int
            },
            final(self).global_var_count == if !is_current && old(self).global_var_count < MAX_VAR_SLOTS {
                old(self).global_var_count + 1
            } else {
                old(self).global_var_count as int
            },
    {
        if is_current {
            if self.current_var_count < MAX_VAR_SLOTS {
                self.current_var_count += 1;
            }
        } else if self.global_var_count < MAX_VAR_SLOTS {
            self.global_var_count += 1;
        }
    }

    /// Removes row `i` of a section, when it is in use: the rows after it move up and the
    /// section has one row fewer in use (see `rows_removed`). Otherwise nothing changes.
    pub fn remove_var_row(&mut self, is_current: bool, i: usize)
        requires
            old(self).wf(),
        ensures
            final(self).wf(),
            is_current && i < old(self).current_var_count ==> {
                &&& rows_removed(final(self).current_vars@, old(self).current_vars@, old(self).current_var_count as int, i as int)
                &&& final(self).current_var_count == old(self).current_var_count - 1
                &&& final(self).global_vars == old(self).global_vars
                &&& final(self).global_var_count == old(self).global_var_count
            },
            !is_current && i < old(self).global_var_count ==> {
                &&& rows_removed(final(self).global_vars@, old(self).global_vars@, old(self).global_var_count as int, i as int)
                &&& final(self).global_var_count == old(self).global_var_count - 1
                &&& final(self).current_vars == old(self).current_vars
                &&& final(self).current_var_count == old(self).current_var_count
            },
            (is_current && i >= old(self).current_var_count) || (!is_current && i >= old(self).global_var_count) ==> {
                &&& final(self).current_vars == old(self).current_vars
                &&& final(self).current_var_count == old(self).current_var_count
                &&& final(self).global_vars == old(self).global_vars
                &&& final(self).global_var_count == old(self).global_var_count
            },
    {
        if is_current {
            if i >= self.current_var_count {
                return;
            }
            let count = self.current_var_count;
            remove_row(&mut self.current_vars, count, i);
            self.current_var_count = count - 1;
        } else {
            if i >= self.global_var_count {
                return;
            }
            let count = self.global_var_count;
            remove_row(&mut self.global_vars, count, i);
            self.global_var_count = count - 1;
        }
    }
}

/// Law: removing a row in use and collecting the section gives what collecting gave before,
/// without that row's variable (when its key was not blank).
pub proof fn law_remove_then_collect(old_rows: Seq<(String, String)>, new_rows: Seq<(String, String)>, count: int, i: int)
    requires
        0 <= i < count <= old_rows.len(),
        rows_removed(new_rows, old_rows, count, i),
    ensures
        collected(new_rows.take(count - 1)) == collected(old_rows.take(i)) + collected(old_rows.subrange(i + 1, count)),
        collected(old_rows.take(count)) == collected(old_rows.take(i)) + collected(old_rows.subrange(i, i + 1)) + collected(old_rows.subrange(i + 1, count)),
{
    assert(new_rows.take(count - 1) =~= old_rows.take(i) + old_rows.subrange(i + 1, count));
    lemma_collected_concat(old_rows.take(i), old_rows.subrange(i + 1, count));
    assert(old_rows.take(count) =~= old_rows.take(i) + old_rows.subrange(i, i + 1) + old_rows.subrange(i + 1, count));
    lemma_collected_concat(old_rows.take(i), old_rows.subrange(i, i + 1));
    lemma_collected_concat(old_rows.take(i) + old_rows.subrange(i, i + 1), old_rows.subrange(i + 1, count));
}

proof fn lemma_collected_concat(a: Seq<(String, String)>, b: Seq<(String, String)>)
    ensures
        collected(a + b) == collected(a) + collected(b),
    decreases b.len(),
{
    if b.len() == 0 {
        assert(a + b =~= a);
        assert(collected(a) + collected(b) =~= collected(a));
    } else {
        lemma_collected_concat(a, b.drop_last());
        assert((a + b).drop_last() =~= a + b.drop_last());
        assert((a + b).last() == b.last());
        if trim(b.last().0@).len() > 0 {
            assert(collected(a) + collected(b) =~= (collected(a) + collected(b.drop_last())).push((b.last().0@, b.last().1@)));
        } else {
        }
    }
}

/// The folder dialog: whether it is shown, whether it renames (a folder or a request) or
/// creates a folder, the folder or request it is about, the parent folder, and the name typed.
pub struct FolderDialogState {
    pub visible: bool,
    pub is_edit: bool,
    pub is_request: bool,
    pub folder_id: Option<String>,
    pub request_id: Option<String>,
    pub parent_id: Option<String>,
    pub name: String,
    /// Set once something was saved; the main view then reloads its lists.
    pub needs_refresh: bool,
}

impl FolderDialogState {
    /// A hidden dialog with nothing chosen and an empty name.
    pub fn new() -> (s: FolderDialogState)
        ensures
            !s.visible && !s.is_edit && !s.is_request && !s.needs_refresh,
            s.folder_id is None && s.request_id is None && s.parent_id is None,
            s.name@.len() == 0,
    {
        FolderDialogState {
            visible: false,
            is_edit: false,
            is_request: false,
            folder_id: None,
            request_id: None,
            parent_id: None,
            name: String::new(),
            needs_refresh: false,
        }
    }

    /// Shows the dialog to create a folder under `parent_id` (`None`: at the top), with an
    /// empty name.
    pub fn open_for_create(&mut self, parent_id: Option<String>)
        ensures
            final(self).visible && !final(self).is_edit && !final(self).is_request,
            final(self).folder_id is None && final(self).request_id is None,
            final(self).parent_id == parent_id,
            final(self).name@.len() == 0,
            final(self).needs_refresh == old(self).needs_refresh,
    {
        self.visible = true;
        self.is_edit = false;
        self.is_request = false;
        self.folder_id = None;
        self.request_id = None;
        self.parent_id = parent_id;
        self.name = String::new();
    }

    /// Shows the dialog to rename a folder, with its current name.
    pub fn open_for_edit(&mut self, folder_id: String, current_name: String, parent_id: Option<String>)
        ensures
            final(self).visible && final(self).is_edit && !final(self).is_request,
            final(self).folder_id == Some(folder_id),
            final(self).request_id is None,
            final(self).parent_id == parent_id,
            final(self).name == current_name,
            final(self).needs_refresh == old(self).needs_refresh,
    {
        self.visible = true;
        self.is_edit = true;
        self.is_request = false;
        self.folder_id = Some(folder_id);
        self.request_id = None;
        self.parent_id = parent_id;
        self.name = current_name;
    }

    /// Shows the dialog to rename a saved request, with its current name.
    pub fn open_for_request_rename(&mut self, request_id: String, current_name: String)
        ensures
            final(self).visible && final(self).is_edit && final(self).is_request,
            final(self).folder_id is None,
            final(self).request_id == Some(request_id),
            final(self).parent_id is None,
            final(self).name == current_name,
            final(self).needs_refresh == old(self).needs_refresh,
    {
        self.visible = true;
        self.is_edit = true;
        self.is_request = true;
        self.folder_id = None;
        self.request_id = Some(request_id);
        self.parent_id = None;
        self.name = current_name;
    }
}

/// The move dialog: whether it is shown, the item to move (a folder or a request), and the
/// folder chosen as target (`None`: the top).
pub struct MoveDialogState {
    pub visible: bool,
    pub item_id: String,
    pub is_folder: bool,
    pub selected_folder_id: Option<String>,
    /// Set once something was moved; the main view then reloads its lists.
    pub needs_refresh: bool,
}

impl MoveDialogState {
    /// A hidden dialog with nothing to move.
    pub fn new() -> (s: MoveDialogState)
        ensures
            !s.visible && !s.is_folder && !s.needs_refresh,
            s.item_id@.len() == 0,
            s.selected_folder_id is None,
    {
        MoveDialogState {
            visible: false,
            item_id: String::new(),
            is_folder: false,
            selected_folder_id: None,
            needs_refresh: false,
        }
    }

    /// Shows the dialog to move an item, with no target chosen.
    pub fn open(&mut self, item_id: String, is_folder: bool)
        ensures
            final(self).visible,
            final(self).item_id == item_id,
            final(self).is_folder == is_folder,
            final(self).selected_folder_id is None,
            final(self).needs_refresh == old(self).needs_refresh,
    {
        self.visible = true;
        self.item_id = item_id;
        self.is_folder = is_folder;
        self.selected_folder_id = None;
    }
}

/// The flags that ask the main view to reload what the dialogs changed.
pub struct RefreshFlags {
    pub env_dialog: bool,
    pub folder_dialog: bool,
    pub move_dialog: bool,
    pub dropped: bool,
    pub save_request_dialog: bool,
    pub collections: bool,
}

/// What the main view reloads once the flags were read.
pub struct RefreshPlan {
    /// Reload the environments (the environment dialog saved).
    pub environments: bool,
    /// Reload the saved requests and the folders.
    pub lists: bool,
    /// Rebuild the collection tree.
    pub collections: bool,
}

impl RefreshFlags {
    /// Reads and clears the flags: the environment dialog's flag reloads the environments; any
    /// dialog's flag or a drop reloads the saved requests and folders; any flag at all rebuilds
    /// the collection tree.
    pub fn check_dialog_refresh_flags(&mut self) -> (p: RefreshPlan)
        ensures
            p.environments == old(self).env_dialog,
            p.lists == (old(self).env_dialog || old(self).folder_dialog || old(self).move_dialog
                || old(self).dropped || old(self).save_request_dialog),
            p.collections == (p.lists || old(self).collections),
            !final(self).env_dialog && !final(self).folder_dialog && !final(self).move_dialog
                && !final(self).dropped && !final(self).save_request_dialog
                && !final(self).collections,
    {
        let environments = self.env_dialog;
        let lists = self.env_dialog || self.folder_dialog || self.move_dialog || self.dropped
            || self.save_request_dialog;
        let collections = lists || self.collections;
        self.env_dialog = false;
        self.folder_dialog = false;
        self.move_dialog = false;
        self.dropped = false;
        self.save_request_dialog = false;
        self.collections = false;
        RefreshPlan { environments, lists, collections }
    }
}

/// What saving the folder dialog does.
pub enum FolderAction {
    /// Renames the saved request with this id.
    RenameRequest(String, String),
    /// Renames the folder with this id, keeping it under the given parent.
    RenameFolder(String, String, Option<String>),
    /// Creates a folder under the given parent.
    CreateFolder(String, Option<String>),
    /// Nothing to store (a rename without its id); the dialog just closes.
    Close,
}

impl FolderDialogState {
    /// Saves the dialog. A blank name does nothing (`None`). Otherwise, with the name trimmed:
    /// renaming a request renames it, renaming a folder renames it, creating makes a folder
    /// under the parent; the dialog then closes and asks for the lists to be reloaded.
    pub fn submit(&mut self) -> (r: Option<FolderAction>)
        ensures
            trim(old(self).name@).len() == 0 <==> r is None,
            r is None ==> *final(self) == *old(self),
            r is Some ==> {
                &&& !final(self).visible
                &&& final(self).needs_refresh
                &&& final(self).is_edit == old(self).is_edit
                &&& final(self).is_request == old(self).is_request
                &&& final(self).folder_id == old(self).folder_id
                &&& final(self).request_id == old(self).request_id
                &&& final(self).parent_id == old(self).parent_id
                &&& final(self).name == old(self).name
            },
            match r {
                Some(FolderAction::RenameRequest(id, name)) => old(self).is_request
                    && old(self).request_id == Some(id) && name@ == trim(old(self).name@),
                Some(FolderAction::RenameFolder(id, name, parent)) => !old(self).is_request
                    && old(self).is_edit && old(self).folder_id == Some(id) && name@ == trim(old(self).name@)
                    && parent == old(self).parent_id,
                Some(FolderAction::CreateFolder(name, parent)) => !old(self).is_request
                    && !old(self).is_edit && name@ == trim(old(self).name@) && parent == old(self).parent_id,
                Some(FolderAction::Close) => (old(self).is_request && old(self).request_id is None)
                    || (!old(self).is_request && old(self).is_edit && old(self).folder_id is None),
                None => true,
            },
    {
        let trimmed = trim_chars(&chars_of(self.name.as_str()));
        if trimmed.len() == 0 {
            return None;
        }
        let name = crate::text::string_from_chars(&trimmed);
        let action = if self.is_request {
            match &self.request_id {
                Some(rid) => FolderAction::RenameRequest(rid.clone(), name),
                None => FolderAction::Close,
            }
        } else if self.is_edit {
            match &self.folder_id {
                Some(fid) => FolderAction::RenameFolder(fid.clone(), name, self.parent_id.clone()),
                None => FolderAction::Close,
            }
        } else {
            FolderAction::CreateFolder(name, self.parent_id.clone())
        };
        self.visible = false;
        self.needs_refresh = true;
        Some(action)
    }
}

/// What saving the environment dialog stores.
pub enum EnvSave {
    /// The global variables.
    Globals(Vec<(String, String)>),
    /// An environment: its id (`None`: a new one), its name as typed, its variables, and
    /// whether it is the active one.
    Environment(Option<String>, String, Vec<(String, String)>, bool),
}

impl EnvDialogState {
    /// Saves the dialog. Editing an environment with a blank name is refused: the name is
    /// marked as wrong and nothing is stored (`None`). Otherwise the global section's variables
    /// are stored (global mode), or the environment with its id, name, variables and whether its
    /// id is that of the active environment; the dialog then closes and asks for the lists to be
    /// reloaded.
    pub fn save(&mut self, active_env_id: Option<&str>) -> (r: Option<EnvSave>)
        requires
            old(self).wf(),
        ensures
            final(self).wf(),
            (!old(self).is_global_only && trim(old(self).name@).len() == 0) <==> r is None,
            r is None ==> final(self).name_error && final(self).visible == old(self).visible
                && final(self).needs_refresh == old(self).needs_refresh,
            r is Some ==> !final(self).visible && final(self).needs_refresh && final(self).name_error == old(self).name_error,
            final(self).current_vars == old(self).current_vars,
            final(self).global_vars == old(self).global_vars,
            final(self).current_var_count == old(self).current_var_count,
            final(self).global_var_count == old(self).global_var_count,
            match r {
                Some(EnvSave::Globals(vs)) => old(self).is_global_only
                    && vs@.map_values(|p: (String, String)| (p.0@, p.1@)) == collected(old(self).global_vars@.take(old(self).global_var_count as int)),
                Some(EnvSave::Environment(id, name, vs, active)) => !old(self).is_global_only
                    && id == old(self).env_id && name == old(self).name
                    && vs@.map_values(|p: (String, String)| (p.0@, p.1@)) == collected(old(self).current_vars@.take(old(self).current_var_count as int))
                    && active == (match (old(self).env_id, active_env_id) {
                        (Some(e), Some(a)) => e@ == a@,
                        _ => false,
                    }),
                None => true,
            },
    {
        if !self.is_global_only && trim_chars(&chars_of(self.name.as_str())).len() == 0 {
            self.name_error = true;
            return None;
        }
        let save = if self.is_global_only {
            EnvSave::Globals(self.collect_global_vars())
        } else {
            let active = match (&self.env_id, active_env_id) {
                (Some(e), Some(a)) => crate::text::chars_eq_str(&chars_of(e.as_str()), a),
                _ => false,
            };
            EnvSave::Environment(self.env_id.clone(), self.name.clone(), self.collect_current_vars(), active)
        };
        self.visible = false;
        self.needs_refresh = true;
        Some(save)
    }
}

/// Law: rows filled from variables collect back those variables with a key that is not blank,
/// in order (so saving an environment right after loading it stores what was loaded).
pub proof fn law_filled_rows_collect(rows: Seq<(String, String)>, vars: Seq<(String, String)>, n: int)
    requires
        0 <= n <= rows.len(),
        n <= vars.len(),
        forall|j: int| 0 <= j < n ==> slot_is(#[trigger] rows[j], vars[j].0@, vars[j].1@),
    ensures
        collected(rows.take(n)) == collected(vars.take(n)),
    decreases n,
{
    if n > 0 {
        law_filled_rows_collect(rows, vars, n - 1);
        assert(rows.take(n).drop_last() =~= rows.take(n - 1));
        assert(vars.take(n).drop_last() =~= vars.take(n - 1));
        assert(slot_is(rows[n - 1], vars[n - 1].0@, vars[n - 1].1@));
    }
}

/// Law: after the rows were emptied and the first `n` filled from variables, any number of
/// rows in use from `n` on collects exactly those variables with a key that is not blank (so
/// nothing of an earlier edit comes back, even when there were no variables to load).
pub proof fn law_loaded_rows_collect(
    rows: Seq<(String, String)>,
    vars: Seq<(String, String)>,
    n: int,
    count: int,
)
    requires
        0 <= n <= count <= rows.len(),
        n <= vars.len(),
        forall|j: int| 0 <= j < n ==> slot_is(#[trigger] rows[j], vars[j].0@, vars[j].1@),
        forall|j: int| n <= j < count ==> slot_empty(#[trigger] rows[j]),
    ensures
        collected(rows.take(count)) == collected(vars.take(n)),
    decreases count,
{
    if count == n {
        law_filled_rows_collect(rows, vars, n);
    } else {
        law_loaded_rows_collect(rows, vars, n, count - 1);
        assert(rows.take(count).drop_last() =~= rows.take(count - 1));
        assert(slot_empty(rows[count - 1]));
        assert(trim(rows[count - 1].0@) =~= Seq::<char>::empty());
    }
}

} // verus!
