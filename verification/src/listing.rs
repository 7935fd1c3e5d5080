//! Ordered name collections and the listing builders: directory listings are
//! assembled as a parent row followed by sorted name blocks.

use vstd::prelude::*;
use crate::entry::{DirEntry, EntryView, EntryLocation, LocationView, dotdot, dotdot_name};
use crate::paths::{fs_parent, fs_parent_spec, join_path, join_spec};
use crate::bytes::{
    copy_bytes,
    lex_lt,
    lex_le,
    names_view,
    bytes_lt,
    bytes_le,
    bytes_eq,
    lemma_lex_lt_trans,
    lemma_lex_lt_le_trans,
    lemma_lex_le_lt_trans,
    lemma_lex_not_le,
    lemma_lex_not_lt,
};

verus! {

/// Every name is at or below every later one.
pub open spec fn sorted_names(s: Seq<Seq<u8>>) -> bool {
    forall|i: int, j: int| 0 <= i < j < s.len() ==> lex_le(s[i], s[j])
}

/// Every name is strictly below every later one, so no name repeats.
pub open spec fn strictly_sorted_names(s: Seq<Seq<u8>>) -> bool {
    forall|i: int, j: int| 0 <= i < j < s.len() ==> lex_lt(s[i], s[j])
}

/// Inserting at a position adds one occurrence to the multiset of elements.
pub proof fn lemma_insert_to_multiset<A>(s: Seq<A>, i: int, x: A)
    requires
        0 <= i <= s.len(),
    ensures
        s.insert(i, x).to_multiset() == s.to_multiset().insert(x),
{
    broadcast use vstd::seq_lib::group_to_multiset_ensures;

    let t = s.insert(i, x);
    assert(t.remove(i) =~= s);
    assert(t[i] == x);
    assert(s.to_multiset() == t.to_multiset().remove(x));
    assert(t.contains(x));
    assert(t.to_multiset().count(x) > 0);
    assert(t.to_multiset().remove(x).insert(x) =~= t.to_multiset());
}

/// First position whose name is not at or below `name`.
fn upper_bound(v: &Vec<Vec<u8>>, name: &[u8]) -> (i: usize)
    ensures
        i <= v@.len(),
        forall|k: int| 0 <= k < i ==> lex_le(names_view(v@)[k], name@),
        i < v@.len() ==> lex_lt(name@, names_view(v@)[i as int]),
{
    let n = v.len();
    let mut i: usize = 0;
    while i < n
        invariant
            i <= n,
            n == v@.len(),
            forall|k: int| 0 <= k < i ==> lex_le(names_view(v@)[k], name@),
        decreases n - i,
    {
        if !bytes_le(v[i].as_slice(), name) {
            proof {
                lemma_lex_not_le(v@[i as int]@, name@);
            }
            return i;
        }
        i += 1;
    }
    i
}

/// First position whose name is not strictly below `name`.
fn lower_bound(v: &Vec<Vec<u8>>, name: &[u8]) -> (i: usize)
    ensures
        i <= v@.len(),
        forall|k: int| 0 <= k < i ==> lex_lt(names_view(v@)[k], name@),
        i < v@.len() ==> lex_le(name@, names_view(v@)[i as int]),
{
    let n = v.len();
    let mut i: usize = 0;
    while i < n
        invariant
            i <= n,
            n == v@.len(),
            forall|k: int| 0 <= k < i ==> lex_lt(names_view(v@)[k], name@),
        decreases n - i,
    {
        if !bytes_lt(v[i].as_slice(), name) {
            proof {
                lemma_lex_not_lt(v@[i as int]@, name@);
            }
            return i;
        }
        i += 1;
    }
    i
}

/// Inserts a name into a sorted list, keeping it sorted; duplicates stay.
pub fn insert_sorted(v: &mut Vec<Vec<u8>>, name: Vec<u8>)
    requires
        sorted_names(names_view(old(v)@)),
    ensures
        sorted_names(names_view(final(v)@)),
        names_view(final(v)@).to_multiset() == names_view(old(v)@).to_multiset().insert(name@),
        final(v)@.len() == old(v)@.len() + 1,
{
    let ghost s0 = names_view(v@);
    let i = upper_bound(v, name.as_slice());
    let ghost nm = name@;
    v.insert(i, name);
    proof {
        let s1 = names_view(v@);
        assert(s1 =~= s0.insert(i as int, nm));
        assert forall|a: int, b: int| 0 <= a < b < s1.len() implies lex_le(s1[a], s1[b]) by {
            if b < i {
                assert(lex_le(s0[a], s0[b]));
            } else if a < i && b == i {
                assert(lex_le(s0[a], nm));
            } else if a < i && b > i {
                if b - 1 > i {
                    lemma_lex_lt_le_trans(nm, s0[i as int], s0[b - 1]);
                }
                lemma_lex_le_lt_trans(s0[a], nm, s0[b - 1]);
            } else if a == i {
                if b - 1 > i {
                    lemma_lex_lt_le_trans(nm, s0[i as int], s0[b - 1]);
                }
            } else {
                assert(lex_le(s0[a - 1], s0[b - 1]));
            }
        }
        lemma_insert_to_multiset(s0, i as int, nm);
    }
}

/// Inserts a name into a strictly sorted list unless it is already present.
pub fn insert_sorted_unique(v: &mut Vec<Vec<u8>>, name: Vec<u8>)
    requires
        strictly_sorted_names(names_view(old(v)@)),
    ensures
        strictly_sorted_names(names_view(final(v)@)),
        forall|x: Seq<u8>|
            names_view(final(v)@).contains(x) <==> (names_view(old(v)@).contains(x) || x
                == name@),
{
    let ghost s0 = names_view(v@);
    let ghost nm = name@;
    let i = lower_bound(v, name.as_slice());
    if i < v.len() && bytes_eq(v[i].as_slice(), name.as_slice()) {
        proof {
            assert(s0[i as int] == nm);
            assert(s0.contains(nm));
            assert forall|x: Seq<u8>| names_view(v@).contains(x) implies (s0.contains(x) || x
                == nm) by {}
        }
        return;
    }
    proof {
        if i < v@.len() {
            assert(lex_le(nm, s0[i as int]));
            assert(lex_lt(nm, s0[i as int]));
        }
    }
    v.insert(i, name);
    proof {
        let s1 = names_view(v@);
        assert(s1 =~= s0.insert(i as int, nm));
        assert forall|a: int, b: int| 0 <= a < b < s1.len() implies lex_lt(s1[a], s1[b]) by {
            if b < i {
                assert(lex_lt(s0[a], s0[b]));
            } else if a < i && b == i {
                assert(lex_lt(s0[a], nm));
            } else if a < i && b > i {
                if b - 1 > i {
                    lemma_lex_lt_le_trans(nm, s0[i as int], s0[b - 1]);
                }
                lemma_lex_lt_trans(s0[a], nm, s0[b - 1]);
            } else if a == i {
                if b - 1 > i {
                    lemma_lex_lt_le_trans(nm, s0[i as int], s0[b - 1]);
                }
            } else {
                assert(lex_lt(s0[a - 1], s0[b - 1]));
            }
        }
        assert forall|x: Seq<u8>| s1.contains(x) implies (s0.contains(x) || x == nm) by {
            let j = choose|j: int| 0 <= j < s1.len() && s1[j] == x;
            if j < i {
                assert(s0[j] == x);
            } else if j > i {
                assert(s0[j - 1] == x);
            }
        }
        assert forall|x: Seq<u8>| (s0.contains(x) || x == nm) implies s1.contains(x) by {
            if s0.contains(x) {
                let j = choose|j: int| 0 <= j < s0.len() && s0[j] == x;
                if j < i {
                    assert(s1[j] == x);
                } else {
                    assert(s1[j + 1] == x);
                }
            } else {
                assert(s1[i as int] == x);
            }
        }
    }
}

/// One raw record as the filesystem shell hands it over: the item's name and
/// whether it is a directory.
pub struct RawEntry {
    pub name: Vec<u8>,
    pub is_dir: bool,
}

/// Mathematical value of a `RawEntry`.
pub ghost struct RawEntryView {
    pub name: Seq<u8>,
    pub is_dir: bool,
}

impl View for RawEntry {
    type V = RawEntryView;

    open spec fn view(&self) -> RawEntryView {
        RawEntryView { name: self.name@, is_dir: self.is_dir }
    }
}

/// The views of a sequence of raw records.
pub open spec fn raws_view(s: Seq<RawEntry>) -> Seq<RawEntryView> {
    s.map_values(|e: RawEntry| e@)
}

/// The views of a sequence of entries.
pub open spec fn entries_view(s: Seq<DirEntry>) -> Seq<EntryView> {
    s.map_values(|e: DirEntry| e@)
}

/// The names of a sequence of entry views.
pub open spec fn entry_names(es: Seq<EntryView>) -> Seq<Seq<u8>> {
    es.map_values(|e: EntryView| e.name)
}

/// Names of the raw records that are directories, in arrival order.
pub open spec fn raw_dir_names(rv: Seq<RawEntryView>) -> Seq<Seq<u8>> {
    rv.filter(|e: RawEntryView| e.is_dir).map_values(|e: RawEntryView| e.name)
}

/// Names of the raw records that are files, in arrival order.
pub open spec fn raw_file_names(rv: Seq<RawEntryView>) -> Seq<Seq<u8>> {
    rv.filter(|e: RawEntryView| !e.is_dir).map_values(|e: RawEntryView| e.name)
}

/// A child row of a filesystem listing: located at the directory path joined
/// with the child's name.
pub open spec fn fs_child_entry(path: Seq<u8>, name: Seq<u8>, is_dir: bool) -> EntryView {
    EntryView { name, is_dir, location: LocationView::Fs { path: join_spec(path, name) } }
}

/// The synthetic parent row of a filesystem listing.
pub open spec fn dotdot_fs_entry(parent: Seq<u8>) -> EntryView {
    EntryView { name: dotdot_name(), is_dir: true, location: LocationView::Fs { path: parent } }
}

/// One more raw record extends exactly one of the two name lists.
proof fn lemma_raw_names_push(rv: Seq<RawEntryView>, x: RawEntryView)
    ensures
        raw_dir_names(rv.push(x)) == (if x.is_dir {
            raw_dir_names(rv).push(x.name)
        } else {
            raw_dir_names(rv)
        }),
        raw_file_names(rv.push(x)) == (if !x.is_dir {
            raw_file_names(rv).push(x.name)
        } else {
            raw_file_names(rv)
        }),
{
    broadcast use vstd::prelude::Seq::lemma_filter_push;
    broadcast use vstd::prelude::Seq::lemma_push_map_commute;

}

/// A listed directory name comes from some raw directory record.
pub proof fn lemma_raw_dir_names_from(rv: Seq<RawEntryView>, nm: Seq<u8>)
    requires
        raw_dir_names(rv).contains(nm),
    ensures
        exists|j: int| 0 <= j < rv.len() && (#[trigger] rv[j]).name == nm && rv[j].is_dir,
    decreases rv.len(),
{
    if rv.len() > 0 {
        let pre = rv.drop_last();
        let last = rv.last();
        assert(pre.push(last) =~= rv);
        lemma_raw_names_push(pre, last);
        if last.is_dir && nm == last.name {
            assert(rv[rv.len() - 1].name == nm && rv[rv.len() - 1].is_dir);
        } else {
            let s = raw_dir_names(rv);
            let i = choose|i: int| 0 <= i < s.len() && s[i] == nm;
            if last.is_dir {
                assert(s =~= raw_dir_names(pre).push(last.name));
                assert(raw_dir_names(pre)[i] == nm);
                assert(raw_dir_names(pre).contains(nm));
            } else {
                assert(s == raw_dir_names(pre));
            }
            lemma_raw_dir_names_from(pre, nm);
            let j = choose|j: int| 0 <= j < pre.len() && (#[trigger] pre[j]).name == nm
                && pre[j].is_dir;
            assert(rv[j].name == nm && rv[j].is_dir);
        }
    }
}

/// A listed file name comes from some raw file record.
pub proof fn lemma_raw_file_names_from(rv: Seq<RawEntryView>, nm: Seq<u8>)
    requires
        raw_file_names(rv).contains(nm),
    ensures
        exists|j: int| 0 <= j < rv.len() && (#[trigger] rv[j]).name == nm && !rv[j].is_dir,
    decreases rv.len(),
{
    if rv.len() > 0 {
        let pre = rv.drop_last();
        let last = rv.last();
        assert(pre.push(last) =~= rv);
        lemma_raw_names_push(pre, last);
        if !last.is_dir && nm == last.name {
            assert(rv[rv.len() - 1].name == nm && !rv[rv.len() - 1].is_dir);
        } else {
            let s = raw_file_names(rv);
            let i = choose|i: int| 0 <= i < s.len() && s[i] == nm;
            if !last.is_dir {
                assert(s =~= raw_file_names(pre).push(last.name));
                assert(raw_file_names(pre)[i] == nm);
                assert(raw_file_names(pre).contains(nm));
            } else {
                assert(s == raw_file_names(pre));
            }
            lemma_raw_file_names_from(pre, nm);
            let j = choose|j: int| 0 <= j < pre.len() && (#[trigger] pre[j]).name == nm
                && !pre[j].is_dir;
            assert(rv[j].name == nm && !rv[j].is_dir);
        }
    }
}

/// Every raw record is either a directory or a file.
proof fn lemma_raw_split_len(rv: Seq<RawEntryView>)
    ensures
        raw_dir_names(rv).len() + raw_file_names(rv).len() == rv.len(),
    decreases rv.len(),
{
    broadcast use vstd::prelude::Seq::lemma_filter_push;

    if rv.len() > 0 {
        let pre = rv.drop_last();
        lemma_raw_split_len(pre);
        assert(rv =~= pre.push(rv.last()));
    }
}

/// Full sorted listing of one filesystem directory, assembled from the raw
/// records the shell read: a parent row when the path has a parent, then the
/// directories sorted by name, then the files sorted by name.
pub fn read_fs_directory(path: &[u8], raw: &Vec<RawEntry>) -> (r: Vec<DirEntry>)
    ensures
        ({
            let rv = raws_view(raw@);
            let pv = fs_parent_spec(path@);
            let head: int = if pv is Some {
                1int
            } else {
                0int
            };
            let ev = entries_view(r@);
            let body = ev.skip(head);
            let nd = raw_dir_names(rv).len() as int;
            &&& ev.len() == head + rv.len()
            &&& (match pv {
                Some(p) => ev[0] == dotdot_fs_entry(p),
                None => true,
            })
            &&& body.len() == nd + raw_file_names(rv).len()
            &&& forall|k: int| 0 <= k < nd ==> (#[trigger] body[k]).is_dir
            &&& forall|k: int| nd <= k < body.len() ==> !(#[trigger] body[k]).is_dir
            &&& forall|k: int|
                0 <= k < body.len() ==> (#[trigger] body[k]) == fs_child_entry(
                    path@,
                    body[k].name,
                    body[k].is_dir,
                )
            &&& sorted_names(entry_names(body.take(nd)))
            &&& sorted_names(entry_names(body.skip(nd)))
            &&& entry_names(body.take(nd)).to_multiset() == raw_dir_names(rv).to_multiset()
            &&& entry_names(body.skip(nd)).to_multiset() == raw_file_names(rv).to_multiset()
            &&& (forall|j: int| 0 <= j < rv.len() ==> (#[trigger] rv[j]).name != dotdot_name())
                ==> (forall|k: int|
                0 <= k < body.len() ==> (#[trigger] body[k]).name != dotdot_name())
        }),
{
    broadcast use vstd::prelude::Seq::lemma_filter_push;
    broadcast use vstd::prelude::Seq::lemma_push_map_commute;
    broadcast use vstd::seq_lib::group_to_multiset_ensures;

    let ghost rv_all = raws_view(raw@);
    let mut dir_names: Vec<Vec<u8>> = Vec::new();
    let mut file_names: Vec<Vec<u8>> = Vec::new();
    let n = raw.len();
    let mut i: usize = 0;
    while i < n
        invariant
            i <= n,
            n == raw@.len(),
            sorted_names(names_view(dir_names@)),
            sorted_names(names_view(file_names@)),
            names_view(dir_names@).to_multiset() == raw_dir_names(
                raws_view(raw@.take(i as int)),
            ).to_multiset(),
            names_view(file_names@).to_multiset() == raw_file_names(
                raws_view(raw@.take(i as int)),
            ).to_multiset(),
        decreases n - i,
    {
        let ghost rv_i = raws_view(raw@.take(i as int));
        let e = &raw[i];
        let nm = copy_bytes(e.name.as_slice());
        if e.is_dir {
            insert_sorted(&mut dir_names, nm);
        } else {
            insert_sorted(&mut file_names, nm);
        }
        proof {
            broadcast use vstd::seq_lib::group_to_multiset_ensures;

            let x = raw@[i as int]@;
            assert(raw@.take(i + 1) =~= raw@.take(i as int).push(raw@[i as int]));
            assert(raws_view(raw@.take(i + 1)) =~= rv_i.push(x));
            lemma_raw_names_push(rv_i, x);
            if x.is_dir {
                assert(raw_dir_names(rv_i).push(x.name).to_multiset() =~= raw_dir_names(
                    rv_i,
                ).to_multiset().insert(x.name));
            } else {
                assert(raw_file_names(rv_i).push(x.name).to_multiset() =~= raw_file_names(
                    rv_i,
                ).to_multiset().insert(x.name));
            }
        }
        i += 1;
    }
    proof {
        assert(raw@.take(n as int) =~= raw@);
    }

    let mut r: Vec<DirEntry> = Vec::new();
    let ghost pv_spec = fs_parent_spec(path@);
    let ghost head: int = if pv_spec is Some {
        1int
    } else {
        0int
    };
    match fs_parent(path) {
        Some(par) => {
            proof {
                assert(par.deep_view() =~= par@);
            }
            r.push(DirEntry { name: dotdot(), is_dir: true, location: EntryLocation::Fs { path: par } });
        },
        None => {},
    }
    proof {
        assert(entries_view(r@).len() == head);
        if let Some(p) = pv_spec {
            assert(entries_view(r@)[0] == dotdot_fs_entry(p));
        }
    }

    let nd = dir_names.len();
    let mut k: usize = 0;
    while k < nd
        invariant
            k <= nd,
            nd == dir_names@.len(),
            r@.len() == head + k,
            head == 1 || head == 0,
            pv_spec == fs_parent_spec(path@),
            head == (if pv_spec is Some {
                1int
            } else {
                0int
            }),
            (match pv_spec {
                Some(p) => entries_view(r@)[0] == dotdot_fs_entry(p),
                None => true,
            }),
            forall|t: int|
                0 <= t < k ==> entries_view(r@)[head + t] == fs_child_entry(
                    path@,
                    names_view(dir_names@)[t],
                    true,
                ),
        decreases nd - k,
    {
        let nm = copy_bytes(dir_names[k].as_slice());
        let jp = join_path(path, nm.as_slice());
        r.push(DirEntry { name: nm, is_dir: true, location: EntryLocation::Fs { path: jp } });
        k += 1;
    }

    let nf = file_names.len();
    let mut k2: usize = 0;
    while k2 < nf
        invariant
            k2 <= nf,
            nf == file_names@.len(),
            nd == dir_names@.len(),
            r@.len() == head + nd + k2,
            head == 1 || head == 0,
            pv_spec == fs_parent_spec(path@),
            head == (if pv_spec is Some {
                1int
            } else {
                0int
            }),
            (match pv_spec {
                Some(p) => entries_view(r@)[0] == dotdot_fs_entry(p),
                None => true,
            }),
            forall|t: int|
                0 <= t < nd ==> entries_view(r@)[head + t] == fs_child_entry(
                    path@,
                    names_view(dir_names@)[t],
                    true,
                ),
            forall|t: int|
                0 <= t < k2 ==> entries_view(r@)[head + nd + t] == fs_child_entry(
                    path@,
                    names_view(file_names@)[t],
                    false,
                ),
        decreases nf - k2,
    {
        let nm = copy_bytes(file_names[k2].as_slice());
        let jp = join_path(path, nm.as_slice());
        r.push(DirEntry { name: nm, is_dir: false, location: EntryLocation::Fs { path: jp } });
        k2 += 1;
    }

    proof {
        lemma_raw_split_len(rv_all);
        let ev = entries_view(r@);
        let body = ev.skip(head);
        let ndn = raw_dir_names(rv_all).len() as int;
        assert(names_view(dir_names@).to_multiset().len() == names_view(dir_names@).len());
        assert(raw_dir_names(rv_all).to_multiset().len() == raw_dir_names(rv_all).len());
        assert(names_view(file_names@).to_multiset().len() == names_view(file_names@).len());
        assert(raw_file_names(rv_all).to_multiset().len() == raw_file_names(rv_all).len());
        assert(nd as int == ndn);
        assert forall|t: int| 0 <= t < body.len() implies #[trigger] body[t] == ev[head + t] by {}
        assert forall|t: int| 0 <= t < ndn implies (#[trigger] body[t]).is_dir && body[t]
            == fs_child_entry(path@, body[t].name, body[t].is_dir) by {
            assert(ev[head + t] == fs_child_entry(path@, names_view(dir_names@)[t], true));
        }
        assert forall|t: int| ndn <= t < body.len() implies !(#[trigger] body[t]).is_dir && body[t]
            == fs_child_entry(path@, body[t].name, body[t].is_dir) by {
            assert(ev[head + t] == fs_child_entry(path@, names_view(file_names@)[t - ndn], false));
        }
        assert(entry_names(body.take(ndn)) =~= names_view(dir_names@));
        assert(entry_names(body.skip(ndn)) =~= names_view(file_names@));
        if forall|j: int| 0 <= j < rv_all.len() ==> (#[trigger] rv_all[j]).name != dotdot_name() {
            assert forall|k: int| 0 <= k < body.len() implies (#[trigger] body[k]).name
                != dotdot_name() by {
                if k < ndn {
                    let tk = entry_names(body.take(ndn));
                    assert(tk[k] == body[k].name);
                    assert(tk.contains(body[k].name));
                    assert(tk.to_multiset().count(body[k].name) > 0);
                    assert(raw_dir_names(rv_all).contains(body[k].name));
                    lemma_raw_dir_names_from(rv_all, body[k].name);
                } else {
                    let sk = entry_names(body.skip(ndn));
                    assert(sk[k - ndn] == body[k].name);
                    assert(sk.contains(body[k].name));
                    assert(sk.to_multiset().count(body[k].name) > 0);
                    assert(raw_file_names(rv_all).contains(body[k].name));
                    lemma_raw_file_names_from(rv_all, body[k].name);
                }
            }
        }
    }
    r
}

} // verus!
