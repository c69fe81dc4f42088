//! The folder tree of saved requests: a folder's depth, its descendants, and the folders an
//! item may be moved into, in the order the move dialog lists them.
use vstd::prelude::*;
use crate::dialogs::FolderDialogState;
use crate::text::{chars_eq, chars_eq_str, chars_of, string_from_chars};

verus! {

/// A folder: its id, its name and the id of the folder it is in (`None`: at the top).
pub struct Folder {
    pub id: String,
    pub name: String,
    pub parent_id: Option<String>,
}

/// The position of the first folder with the given id, looking from position `k` on.
pub open spec fn find_from(fs: Seq<Folder>, id: Seq<char>, k: int) -> Option<int>
    decreases fs.len() - k,
{
    if k < 0 || k >= fs.len() {
        None
    } else if fs[k].id@ == id {
        Some(k)
    } else {
        find_from(fs, id, k + 1)
    }
}

/// The position of the first folder with the given id.
pub open spec fn find_folder(fs: Seq<Folder>, id: Seq<char>) -> Option<int> {
    find_from(fs, id, 0)
}

/// The depth of the folder with id `id` (0 for one at the top, or for an unknown id), found by
/// following parents at most `n` times; `None` when that is not enough.
pub open spec fn depth_within(fs: Seq<Folder>, id: Seq<char>, n: nat) -> Option<nat>
    decreases n,
{
    match find_folder(fs, id) {
        None => Some(0),
        Some(k) => match fs[k].parent_id {
            None => Some(0),
            Some(p) => if n == 0 {
                None
            } else {
                match depth_within(fs, p@, (n - 1) as nat) {
                    Some(d) => Some(d + 1),
                    None => None,
                }
            },
        },
    }
}

/// Following parents from `id` ends (no folder is its own ancestor): since each step lands on
/// a folder, that takes at most as many steps as there are folders.
pub open spec fn has_depth(fs: Seq<Folder>, id: Seq<char>) -> bool {
    depth_within(fs, id, fs.len()) is Some
}

/// The depth of a folder whose parents end.
pub open spec fn folder_depth_of(fs: Seq<Folder>, id: Seq<char>) -> nat {
    depth_within(fs, id, fs.len())->0
}

fn find_index(fs: &Vec<Folder>, id: &str) -> (r: Option<usize>)
    ensures
        match r {
            Some(k) => find_folder(fs@, id@) == Some(k as int) && k < fs@.len(),
            None => find_folder(fs@, id@) is None,
        },
{
    let mut i: usize = 0;
    while i < fs.len()
        invariant
            i <= fs@.len(),
            find_folder(fs@, id@) == find_from(fs@, id@, i as int),
        decreases fs@.len() - i,
    {
        if chars_eq_str(&chars_of(fs[i].id.as_str()), id) {
            return Some(i);
        }
        i += 1;
    }
    None
}

fn depth_with(fs: &Vec<Folder>, id: &str, fuel: usize) -> (d: usize)
    requires
        depth_within(fs@, id@, fuel as nat) is Some,
    ensures
        d == depth_within(fs@, id@, fuel as nat)->0,
        d <= fuel,
    decreases fuel,
{
    match find_index(fs, id) {
        None => 0,
        Some(k) => match &fs[k].parent_id {
            None => 0,
            Some(p) => 1 + depth_with(fs, p.as_str(), fuel - 1),
        },
    }
}

/// The depth of a folder: how many parents it has (0 for one at the top, or for an unknown
/// id). Defined when following parents ends.
pub fn folder_depth(folders: &Vec<Folder>, folder_id: &str) -> (d: usize)
    requires
        has_depth(folders@, folder_id@),
    ensures
        d == folder_depth_of(folders@, folder_id@),
{
    depth_with(folders, folder_id, folders.len())
}

/// The ids found under `id`, looking at folders from position `k` on: each child in folder
/// order, followed by its own descendants; `None` when going down takes more than `n` levels.
pub open spec fn descendants_from(fs: Seq<Folder>, id: Seq<char>, k: int, n: nat) -> Option<Seq<Seq<char>>>
    decreases n, fs.len() - k,
{
    if k < 0 || k >= fs.len() {
        Some(Seq::empty())
    } else if fs[k].parent_id matches Some(p) && p@ == id {
        if n == 0 {
            None
        } else {
            match descendants_from(fs, fs[k].id@, 0, (n - 1) as nat) {
                Some(a) => match descendants_from(fs, id, k + 1, n) {
                    Some(b) => Some(seq![fs[k].id@] + a + b),
                    None => None,
                },
                None => None,
            }
        }
    } else {
        descendants_from(fs, id, k + 1, n)
    }
}

/// Going down from `id` ends: no folder is its own descendant (a path down that visits more
/// levels than there are folders visits one twice).
pub open spec fn has_descendants(fs: Seq<Folder>, id: Seq<char>) -> bool {
    descendants_from(fs, id, 0, fs.len()) is Some
}

/// The ids of all folders under `id`, each child followed by its own descendants.
pub open spec fn descendants_of(fs: Seq<Folder>, id: Seq<char>) -> Seq<Seq<char>> {
    descendants_from(fs, id, 0, fs.len())->0
}

fn descendants_with(fs: &Vec<Folder>, id: &str, fuel: usize) -> (r: Vec<String>)
    requires
        descendants_from(fs@, id@, 0, fuel as nat) is Some,
    ensures
        r@.map_values(|s: String| s@) == descendants_from(fs@, id@, 0, fuel as nat)->0,
    decreases fuel,
{
    let mut r: Vec<String> = Vec::new();
    let mut k: usize = 0;
    while k < fs.len()
        invariant
            k <= fs@.len(),
            descendants_from(fs@, id@, k as int, fuel as nat) is Some,
            descendants_from(fs@, id@, 0, fuel as nat) == Some(
                r@.map_values(|s: String| s@) + descendants_from(fs@, id@, k as int, fuel as nat)->0,
            ),
        decreases fs@.len() - k,
    {
        let is_child = match &fs[k].parent_id {
            Some(p) => chars_eq_str(&chars_of(p.as_str()), id),
            None => false,
        };
        if is_child {
            let sub = descendants_with(fs, fs[k].id.as_str(), fuel - 1);
            let ghost before = r@.map_values(|s: String| s@);
            r.push(fs[k].id.clone());
            let mut j: usize = 0;
            while j < sub.len()
                invariant
                    j <= sub@.len(),
                    r@.map_values(|s: String| s@) == before.push(fs@[k as int].id@) + sub@.map_values(|s: String| s@).take(j as int),
                decreases sub@.len() - j,
            {
                let ghost mid = r@.map_values(|s: String| s@);
                r.push(sub[j].clone());
                assert(r@.map_values(|s: String| s@) =~= mid.push(sub@[j as int]@));
                j += 1;
                assert(sub@.map_values(|s: String| s@).take(j as int) =~= sub@.map_values(|s: String| s@).take(j - 1).push(sub@[j - 1]@));
            }
            assert(sub@.map_values(|s: String| s@).take(sub@.len() as int) =~= sub@.map_values(|s: String| s@));
            assert(r@.map_values(|s: String| s@) + descendants_from(fs@, id@, k + 1, fuel as nat)->0 =~= before + descendants_from(fs@, id@, k as int, fuel as nat)->0);
        }
        k += 1;
    }
    assert(r@.map_values(|s: String| s@) + Seq::<Seq<char>>::empty() =~= r@.map_values(|s: String| s@));
    r
}

/// The ids of all folders under a folder, each child (in folder order) followed by its own
/// descendants. Defined when going down ends.
pub fn collect_descendant_ids(folders: &Vec<Folder>, folder_id: &str) -> (r: Vec<String>)
    requires
        has_descendants(folders@, folder_id@),
    ensures
        r@.map_values(|s: String| s@) == descendants_of(folders@, folder_id@),
{
    descendants_with(folders, folder_id, folders.len())
}

/// Names in the order `String` compares them: lexicographically by character (UTF-8 keeps the
/// order of code points, so this is the order of their bytes).
pub open spec fn name_lt(a: Seq<char>, b: Seq<char>) -> bool
    decreases a.len(),
{
    if a.len() == 0 {
        b.len() > 0
    } else if b.len() == 0 {
        false
    } else if a[0] != b[0] {
        a[0] < b[0]
    } else {
        name_lt(a.drop_first(), b.drop_first())
    }
}

proof fn lemma_name_lt_order(a: Seq<char>, b: Seq<char>, c: Seq<char>)
    ensures
        !name_lt(a, a),
        a != b ==> (name_lt(a, b) || name_lt(b, a)),
        name_lt(a, b) ==> !name_lt(b, a),
        name_lt(a, b) && name_lt(b, c) ==> name_lt(a, c),
    decreases a.len(),
{
    if a.len() > 0 && b.len() > 0 && c.len() > 0 {
        lemma_name_lt_order(a.drop_first(), b.drop_first(), c.drop_first());
        if a != b && a[0] == b[0] {
            assert(a.drop_first() != b.drop_first()) by {
                if a.drop_first() == b.drop_first() {
                    assert(a =~= seq![a[0]] + a.drop_first());
                    assert(b =~= seq![b[0]] + b.drop_first());
                }
            }
        }
    } else if a.len() > 0 && b.len() > 0 {
        lemma_name_lt_order(a.drop_first(), b.drop_first(), a.drop_first());
        if a != b && a[0] == b[0] {
            assert(a.drop_first() != b.drop_first()) by {
                if a.drop_first() == b.drop_first() {
                    assert(a =~= seq![a[0]] + a.drop_first());
                    assert(b =~= seq![b[0]] + b.drop_first());
                }
            }
        }
    } else if a.len() > 0 {
        lemma_name_lt_order(a.drop_first(), a.drop_first(), a.drop_first());
    } else {
        if a != b {
            assert(b.len() > 0) by {
                if b.len() == 0 {
                    assert(a =~= b);
                }
            }
        }
    }
}

fn name_less(a: &Vec<char>, b: &Vec<char>) -> (r: bool)
    ensures
        r == name_lt(a@, b@),
{
    let mut i: usize = 0;
    assert(a@.skip(0) =~= a@);
    assert(b@.skip(0) =~= b@);
    while i < a.len() && i < b.len() && a[i] == b[i]
        invariant
            i <= a@.len(),
            i <= b@.len(),
            name_lt(a@, b@) == name_lt(a@.skip(i as int), b@.skip(i as int)),
        decreases a@.len() - i,
    {
        assert(a@.skip(i as int).drop_first() =~= a@.skip(i + 1));
        assert(b@.skip(i as int).drop_first() =~= b@.skip(i + 1));
        i += 1;
    }
    if i == a.len() {
        i < b.len()
    } else if i == b.len() {
        false
    } else {
        assert(a@.skip(i as int)[0] == a@[i as int]);
        assert(b@.skip(i as int)[0] == b@[i as int]);
        a[i] < b[i]
    }
}

/// A folder the item may be moved into: any folder for a request; for a folder, any folder
/// other than itself and those under it.
pub open spec fn is_move_target(fs: Seq<Folder>, k: int, item_id: Seq<char>, is_folder: bool) -> bool {
    !is_folder || (fs[k].id@ != item_id && !descendants_of(fs, item_id).contains(fs[k].id@))
}

/// The positions below `n` of the folders the item may be moved into, in folder order.
pub open spec fn candidates_upto(fs: Seq<Folder>, item_id: Seq<char>, is_folder: bool, n: nat) -> Seq<int>
    decreases n,
{
    if n == 0 {
        Seq::empty()
    } else {
        let prev = candidates_upto(fs, item_id, is_folder, (n - 1) as nat);
        if n - 1 < fs.len() && is_move_target(fs, n - 1, item_id, is_folder) {
            prev.push(n - 1)
        } else {
            prev
        }
    }
}

/// The positions of the folders the item may be moved into, in folder order.
pub open spec fn move_candidates(fs: Seq<Folder>, item_id: Seq<char>, is_folder: bool) -> Seq<int> {
    candidates_upto(fs, item_id, is_folder, fs.len())
}

/// The order of the move list: by depth, then by name, then by position.
pub open spec fn listed_before(fs: Seq<Folder>, i: int, j: int) -> bool {
    let di = folder_depth_of(fs, fs[i].id@);
    let dj = folder_depth_of(fs, fs[j].id@);
    di < dj || (di == dj && (name_lt(fs[i].name@, fs[j].name@) || (fs[i].name@ == fs[j].name@
        && i < j)))
}

proof fn lemma_listed_order(fs: Seq<Folder>, i: int, j: int, k: int)
    ensures
        !listed_before(fs, i, i),
        i != j ==> (listed_before(fs, i, j) || listed_before(fs, j, i)),
        listed_before(fs, i, j) ==> !listed_before(fs, j, i),
        listed_before(fs, i, j) && listed_before(fs, j, k) ==> listed_before(fs, i, k),
{
    lemma_name_lt_order(fs[i].name@, fs[j].name@, fs[k].name@);
    lemma_name_lt_order(fs[j].name@, fs[i].name@, fs[k].name@);
    lemma_name_lt_order(fs[i].name@, fs[i].name@, fs[i].name@);
}

fn listed_before_exec(fs: &Vec<Folder>, i: usize, di: usize, j: usize, dj: usize) -> (r: bool)
    requires
        i < fs@.len(),
        j < fs@.len(),
        di == folder_depth_of(fs@, fs@[i as int].id@),
        dj == folder_depth_of(fs@, fs@[j as int].id@),
    ensures
        r == listed_before(fs@, i as int, j as int),
{
    if di != dj {
        return di < dj;
    }
    let a = chars_of(fs[i].name.as_str());
    let b = chars_of(fs[j].name.as_str());
    if name_less(&a, &b) {
        true
    } else if chars_eq(&a, &b) {
        i < j
    } else {
        false
    }
}

fn contains_id(ids: &Vec<String>, id: &str) -> (r: bool)
    ensures
        r == ids@.map_values(|s: String| s@).contains(id@),
{
    let ghost v = ids@.map_values(|s: String| s@);
    let mut i: usize = 0;
    while i < ids.len()
        invariant
            i <= ids@.len(),
            v == ids@.map_values(|s: String| s@),
            forall|k: int| 0 <= k < i ==> v[k] != id@,
        decreases ids@.len() - i,
    {
        if chars_eq_str(&chars_of(ids[i].as_str()), id) {
            assert(v[i as int] == id@);
            return true;
        }
        i += 1;
    }
    false
}

proof fn lemma_candidates_shape(fs: Seq<Folder>, item_id: Seq<char>, is_folder: bool, n: nat)
    ensures
        forall|a: int, b: int| 0 <= a < b < candidates_upto(fs, item_id, is_folder, n).len()
            ==> candidates_upto(fs, item_id, is_folder, n)[a] < candidates_upto(fs, item_id, is_folder, n)[b],
        forall|a: int| 0 <= a < candidates_upto(fs, item_id, is_folder, n).len()
            ==> 0 <= #[trigger] candidates_upto(fs, item_id, is_folder, n)[a] < n,
    decreases n,
{
    if n > 0 {
        let m = (n - 1) as nat;
        lemma_candidates_shape(fs, item_id, is_folder, m);
        let prev = candidates_upto(fs, item_id, is_folder, m);
        let cur = candidates_upto(fs, item_id, is_folder, n);
        if m < fs.len() && is_move_target(fs, m as int, item_id, is_folder) {
            assert(cur == prev.push(m as int));
            assert forall|a: int| 0 <= a < cur.len() implies 0 <= #[trigger] cur[a] < n by {
                if a < prev.len() {
                    assert(cur[a] == prev[a]);
                }
            }
            assert forall|a: int, b: int| 0 <= a < b < cur.len() implies cur[a] < cur[b] by {
                assert(cur[a] == prev[a]);
                if b < prev.len() {
                    assert(cur[b] == prev[b]);
                }
            }
        } else {
            assert(cur == prev);
        }
    }
}

/// The folders an item may be moved into, as positions in `folders`, in the order the move
/// dialog lists them: by depth, then name, then position (see `listed_before`). Defined when
/// going down from a moved folder ends, and, when there are two targets or more (the list is
/// then sorted), when following parents ends for each target.
pub fn move_targets(folders: &Vec<Folder>, item_id: &str, is_folder: bool) -> (r: Vec<usize>)
    requires
        is_folder ==> has_descendants(folders@, item_id@),
        move_candidates(folders@, item_id@, is_folder).len() >= 2 ==> forall|k: int|
            #[trigger] move_candidates(folders@, item_id@, is_folder).contains(k) ==> has_depth(
                folders@,
                folders@[k].id@,
            ),
    ensures
        r@.len() == move_candidates(folders@, item_id@, is_folder).len(),
        forall|x: usize| #[trigger] r@.contains(x) <==> move_candidates(folders@, item_id@, is_folder).contains(x as int),
        forall|a: int, b: int| 0 <= a < b < r@.len() ==> listed_before(folders@, r@[a] as int, r@[b] as int),
{
    let ghost fs = folders@;
    let ghost all = move_candidates(fs, item_id@, is_folder);
    let descendants = if is_folder {
        collect_descendant_ids(folders, item_id)
    } else {
        Vec::new()
    };
    let mut cands: Vec<usize> = Vec::new();
    let mut k: usize = 0;
    while k < folders.len()
        invariant
            k <= fs.len(),
            fs == folders@,
            is_folder ==> descendants@.map_values(|s: String| s@) == descendants_of(fs, item_id@),
            cands@.len() == candidates_upto(fs, item_id@, is_folder, k as nat).len(),
            forall|a: int| 0 <= a < cands@.len() ==> #[trigger] cands@[a] as int == candidates_upto(fs, item_id@, is_folder, k as nat)[a],
        decreases fs.len() - k,
    {
        let target = if !is_folder {
            true
        } else {
            !chars_eq_str(&chars_of(folders[k].id.as_str()), item_id) && !contains_id(&descendants, folders[k].id.as_str())
        };
        if target {
            cands.push(k);
        }
        k += 1;
    }
    proof {
        lemma_candidates_shape(fs, item_id@, is_folder, fs.len());
    }
    assert forall|x: usize| #[trigger] cands@.contains(x) <==> all.contains(x as int) by {
        if cands@.contains(x) {
            let a = choose|a: int| 0 <= a < cands@.len() && cands@[a] == x;
            assert(all[a] == x as int);
        }
        if all.contains(x as int) {
            let a = choose|a: int| 0 <= a < all.len() && all[a] == x as int;
            assert(cands@[a] == x);
        }
    }
    if cands.len() < 2 {
        return cands;
    }
    let mut out: Vec<usize> = Vec::new();
    let mut od: Vec<usize> = Vec::new();
    let mut t: usize = 0;
    while t < cands.len()
        invariant
            t <= cands@.len() == all.len() >= 2,
            fs == folders@,
            forall|a: int| 0 <= a < cands@.len() ==> #[trigger] cands@[a] as int == all[a],
            forall|a: int, b: int| 0 <= a < b < all.len() ==> all[a] < all[b],
            forall|a: int| 0 <= a < all.len() ==> 0 <= #[trigger] all[a] < fs.len(),
            forall|k: int| #[trigger] all.contains(k) ==> has_depth(fs, fs[k].id@),
            all == move_candidates(fs, item_id@, is_folder),
            out@.len() == t,
            od@.len() == t,
            forall|a: int| 0 <= a < t ==> (#[trigger] out@[a]) < fs.len() && od@[a] == folder_depth_of(fs, fs[out@[a] as int].id@),
            forall|x: usize| #[trigger] out@.contains(x) <==> cands@.take(t as int).contains(x),
            forall|a: int, b: int| 0 <= a < b < t ==> listed_before(fs, out@[a] as int, out@[b] as int),
        decreases cands@.len() - t,
    {
        let c = cands[t];
        assert(all.contains(c as int));
        let dc = folder_depth(folders, folders[c].id.as_str());
        let mut p: usize = 0;
        while p < out.len() && !listed_before_exec(folders, c, dc, out[p], od[p])
            invariant
                p <= out@.len() == od@.len() == t,
                c < fs.len(),
                fs == folders@,
                dc == folder_depth_of(fs, fs[c as int].id@),
                forall|a: int| 0 <= a < t ==> (#[trigger] out@[a]) < fs.len() && od@[a] == folder_depth_of(fs, fs[out@[a] as int].id@),
                forall|a: int| 0 <= a < p ==> !listed_before(fs, c as int, #[trigger] out@[a] as int),
            decreases t - p,
        {
            p += 1;
        }
        proof {
            assert forall|a: int| 0 <= a < t implies (#[trigger] out@[a]) < c by {
                assert(out@.contains(out@[a]));
                assert(cands@.take(t as int).contains(out@[a]));
                let b = choose|b: int| 0 <= b < t && cands@.take(t as int)[b] == out@[a];
                assert(all[b] < all[t as int]);
            }
            assert forall|a: int| 0 <= a < p implies listed_before(fs, #[trigger] out@[a] as int, c as int) by {
                lemma_listed_order(fs, out@[a] as int, c as int, c as int);
            }
            if p < t {
                assert forall|a: int| p < a < t implies listed_before(fs, c as int, #[trigger] out@[a] as int) by {
                    lemma_listed_order(fs, c as int, out@[p as int] as int, out@[a] as int);
                }
            }
        }
        let ghost old_out = out@;
        out.insert(p, c);
        od.insert(p, dc);
        proof {
            assert forall|a: int, b: int| 0 <= a < b < t + 1 implies listed_before(fs, out@[a] as int, out@[b] as int) by {
                if b < p {
                    assert(out@[a] == old_out[a] && out@[b] == old_out[b]);
                } else if b == p {
                    assert(out@[a] == old_out[a]);
                } else if a < p {
                    assert(out@[a] == old_out[a] && out@[b] == old_out[b - 1]);
                    lemma_listed_order(fs, old_out[a] as int, c as int, old_out[b - 1] as int);
                } else if a == p {
                    assert(out@[b] == old_out[b - 1]);
                } else {
                    assert(out@[a] == old_out[a - 1] && out@[b] == old_out[b - 1]);
                }
            }
            let pre = cands@.take(t as int);
            let pre1 = cands@.take(t + 1);
            assert(pre1 =~= pre.push(c));
            assert forall|x: usize| #[trigger] out@.contains(x) <==> pre1.contains(x) by {
                if out@.contains(x) {
                    let a = choose|a: int| 0 <= a < out@.len() && out@[a] == x;
                    if a < p {
                        assert(old_out[a] == x);
                        assert(old_out.contains(x));
                        assert(pre.contains(x));
                        let b = choose|b: int| 0 <= b < t && pre[b] == x;
                        assert(pre1[b] == x);
                    } else if a == p {
                        assert(pre1[t as int] == x);
                    } else {
                        assert(old_out[a - 1] == x);
                        assert(old_out.contains(x));
                        assert(pre.contains(x));
                        let b = choose|b: int| 0 <= b < t && pre[b] == x;
                        assert(pre1[b] == x);
                    }
                }
                if pre1.contains(x) {
                    let b = choose|b: int| 0 <= b < t + 1 && pre1[b] == x;
                    if b == t {
                        assert(out@[p as int] == x);
                    } else {
                        assert(pre[b] == x);
                        assert(pre.contains(x));
                        assert(old_out.contains(x));
                        let a = choose|a: int| 0 <= a < old_out.len() && old_out[a] == x;
                        if a < p {
                            assert(out@[a] == x);
                        } else {
                            assert(out@[a + 1] == x);
                        }
                    }
                }
            }
            assert forall|a: int| 0 <= a < t + 1 implies (#[trigger] out@[a]) < fs.len() && od@[a] == folder_depth_of(fs, fs[out@[a] as int].id@) by {
                if a < p {
                    assert(out@[a] == old_out[a]);
                } else if a > p {
                    assert(out@[a] == old_out[a - 1]);
                }
            }
        }
        t += 1;
    }
    assert(cands@.take(cands@.len() as int) =~= cands@);
    out
}

proof fn lemma_candidates_are_targets(fs: Seq<Folder>, item_id: Seq<char>, is_folder: bool, n: nat)
    ensures
        forall|a: int| 0 <= a < candidates_upto(fs, item_id, is_folder, n).len() ==> {
            let k = #[trigger] candidates_upto(fs, item_id, is_folder, n)[a];
            0 <= k < fs.len() && is_move_target(fs, k, item_id, is_folder)
        },
    decreases n,
{
    if n > 0 {
        let m = (n - 1) as nat;
        lemma_candidates_are_targets(fs, item_id, is_folder, m);
        let prev = candidates_upto(fs, item_id, is_folder, m);
        let cur = candidates_upto(fs, item_id, is_folder, n);
        if m < fs.len() && is_move_target(fs, m as int, item_id, is_folder) {
            assert(cur == prev.push(m as int));
            assert forall|a: int| 0 <= a < cur.len() implies {
                let k = #[trigger] cur[a];
                0 <= k < fs.len() && is_move_target(fs, k, item_id, is_folder)
            } by {
                if a < prev.len() {
                    assert(cur[a] == prev[a]);
                }
            }
        } else {
            assert(cur == prev);
        }
    }
}

/// Law: a folder is never offered as the target of its own move, nor is any folder under it.
pub proof fn law_move_never_into_itself(fs: Seq<Folder>, item_id: Seq<char>, k: int)
    requires
        move_candidates(fs, item_id, true).contains(k),
    ensures
        0 <= k < fs.len(),
        fs[k].id@ != item_id,
        !descendants_of(fs, item_id).contains(fs[k].id@),
{
    lemma_candidates_are_targets(fs, item_id, true, fs.len());
    let a = choose|a: int| 0 <= a < move_candidates(fs, item_id, true).len() && move_candidates(fs, item_id, true)[a] == k;
    assert(candidates_upto(fs, item_id, true, fs.len())[a] == k);
}

/// The ids of the expanded folders, as texts.
pub open spec fn id_views(ids: Seq<String>) -> Seq<Seq<char>> {
    ids.map_values(|s: String| s@)
}

/// No id occurs twice.
pub open spec fn no_repeats(ids: Seq<String>) -> bool {
    forall|i: int, j: int| 0 <= i < j < ids.len() ==> ids[i]@ != ids[j]@
}

/// Expands a collapsed folder or collapses an expanded one: the folder's id joins or leaves
/// the expanded set; the other ids stay.
pub fn toggle_folder_expand(expanded: &mut Vec<String>, folder_id: &str)
    requires
        no_repeats(old(expanded)@),
    ensures
        no_repeats(final(expanded)@),
        id_views(final(expanded)@).contains(folder_id@) == !id_views(old(expanded)@).contains(folder_id@),
        forall|x: Seq<char>| x != folder_id@ ==> (id_views(final(expanded)@).contains(x) == id_views(old(expanded)@).contains(x)),
{
    let mut i: usize = 0;
    while i < expanded.len()
        invariant
            i <= expanded@.len(),
            expanded@ == old(expanded)@,
            no_repeats(expanded@),
            forall|k: int| 0 <= k < i ==> expanded@[k]@ != folder_id@,
        decreases expanded@.len() - i,
    {
        if chars_eq_str(&chars_of(expanded[i].as_str()), folder_id) {
            let ghost before = expanded@;
            expanded.remove(i);
            proof {
                assert(id_views(before).contains(folder_id@)) by {
                    assert(id_views(before)[i as int] == folder_id@);
                }
                assert forall|x: Seq<char>| x != folder_id@ implies (id_views(expanded@).contains(x) == id_views(before).contains(x)) by {
                    if id_views(before).contains(x) {
                        let k = choose|k: int| 0 <= k < before.len() && id_views(before)[k] == x;
                        if k < i {
                            assert(id_views(expanded@)[k] == x);
                        } else {
                            assert(k != i);
                            assert(id_views(expanded@)[k - 1] == x);
                        }
                    }
                    if id_views(expanded@).contains(x) {
                        let k = choose|k: int| 0 <= k < expanded@.len() && id_views(expanded@)[k] == x;
                        if k < i {
                            assert(id_views(before)[k] == x);
                        } else {
                            assert(id_views(before)[k + 1] == x);
                        }
                    }
                }
                assert(no_repeats(before));
                assert(!id_views(expanded@).contains(folder_id@)) by {
                    if id_views(expanded@).contains(folder_id@) {
                        let k = choose|k: int| 0 <= k < expanded@.len() && id_views(expanded@)[k] == folder_id@;
                        if k < i {
                            assert(before[k]@ == folder_id@);
                        } else {
                            assert(before[k + 1]@ == folder_id@);
                            assert(before[i as int]@ == folder_id@);
                            assert(before[i as int]@ != before[k + 1]@);
                        }
                    }
                }
                assert forall|a: int, b: int| 0 <= a < b < expanded@.len() implies expanded@[a]@ != expanded@[b]@ by {
                    let a2 = if a < i { a } else { a + 1 };
                    let b2 = if b < i { b } else { b + 1 };
                    assert(expanded@[a] == before[a2]);
                    assert(expanded@[b] == before[b2]);
                    assert(before[a2]@ != before[b2]@);
                }
            }
            return;
        }
        i += 1;
    }
    let ghost before = expanded@;
    expanded.push(string_from_chars(&chars_of(folder_id)));
    proof {
        assert forall|a: int, b: int| 0 <= a < b < expanded@.len() implies expanded@[a]@ != expanded@[b]@ by {
            if b < before.len() {
                assert(expanded@[a] == before[a] && expanded@[b] == before[b]);
            } else {
                assert(expanded@[a] == before[a]);
                assert(before[a]@ != folder_id@);
            }
        }
        assert(!id_views(before).contains(folder_id@)) by {
            if id_views(before).contains(folder_id@) {
                let k = choose|k: int| 0 <= k < before.len() && id_views(before)[k] == folder_id@;
                assert(before[k]@ == folder_id@);
            }
        }
        assert(id_views(expanded@) =~= id_views(before).push(folder_id@));
        assert(id_views(expanded@)[before.len() as int] == folder_id@);
        assert forall|x: Seq<char>| x != folder_id@ implies (id_views(expanded@).contains(x) == id_views(before).contains(x)) by {
            if id_views(expanded@).contains(x) {
                let k = choose|k: int| 0 <= k < expanded@.len() && id_views(expanded@)[k] == x;
                assert(k < before.len());
                assert(id_views(before)[k] == x);
            }
            if id_views(before).contains(x) {
                let k = choose|k: int| 0 <= k < before.len() && id_views(before)[k] == x;
                assert(id_views(expanded@)[k] == x);
            }
        }
    }
}

/// Shows the dialog to rename a folder, with its current name and the parent the folder list
/// gives it (that of the first folder with this id; none when it has none or is unknown).
pub fn open_folder_edit_dialog(dialog: &mut FolderDialogState, folders: &Vec<Folder>, folder_id: String, current_name: String)
    ensures
        final(dialog).visible && final(dialog).is_edit && !final(dialog).is_request,
        final(dialog).folder_id == Some(folder_id),
        final(dialog).request_id is None,
        final(dialog).name == current_name,
        final(dialog).needs_refresh == old(dialog).needs_refresh,
        final(dialog).parent_id == match find_folder(folders@, folder_id@) {
            Some(k) => folders@[k].parent_id,
            None => None,
        },
{
    let parent_id = match find_index(folders, folder_id.as_str()) {
        Some(k) => folders[k].parent_id.clone(),
        None => None,
    };
    dialog.open_for_edit(folder_id, current_name, parent_id);
}

} // verus!
