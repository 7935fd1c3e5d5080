//! Archive listings: a zip archive is presented as a hierarchy by scanning
//! every member name, keeping those under the current inner path, and
//! synthesizing one subdirectory row per distinct first segment.

use vstd::prelude::*;
use crate::entry::{DirEntry, EntryView, EntryLocation, LocationView, dotdot, dotdot_name};
use crate::listing::{
    sorted_names,
    strictly_sorted_names,
    insert_sorted,
    insert_sorted_unique,
    entries_view,
    entry_names,
};
use crate::paths::{
    SLASH,
    fs_parent,
    fs_parent_spec,
    zip_parent,
    zip_parent_spec,
    zip_join,
    zip_join_spec,
    strip_trailing_slashes,
    strip_end,
};
use crate::bytes::{copy_bytes, is_prefix, names_view, starts_with, find_byte};

verus! {

/// The member-name prefix that delimits one inner directory: empty at the
/// archive root, otherwise the inner path followed by one separator.
pub open spec fn archive_prefix(cwd: Seq<u8>) -> Seq<u8> {
    if cwd.len() == 0 {
        Seq::empty()
    } else {
        strip_trailing_slashes(cwd) + seq![SLASH]
    }
}

/// Index of the first occurrence of `c`, as a recursive definition.
pub open spec fn ffirst(s: Seq<u8>, c: u8) -> Option<int>
    decreases s.len(),
{
    if s.len() == 0 {
        None
    } else if s[0] == c {
        Some(0int)
    } else {
        match ffirst(s.drop_first(), c) {
            None => None,
            Some(i) => Some(i + 1),
        }
    }
}

/// Where an index carries the first-occurrence property, `ffirst` finds it.
pub proof fn lemma_ffirst_is(s: Seq<u8>, c: u8, i: int)
    requires
        0 <= i < s.len(),
        s[i] == c,
        forall|k: int| 0 <= k < i ==> s[k] != c,
    ensures
        ffirst(s, c) == Some(i),
    decreases s.len(),
{
    if i > 0 {
        lemma_ffirst_is(s.drop_first(), c, i - 1);
    }
}

/// Where no byte is `c`, `ffirst` finds nothing.
pub proof fn lemma_ffirst_none(s: Seq<u8>, c: u8)
    requires
        forall|k: int| 0 <= k < s.len() ==> s[k] != c,
    ensures
        ffirst(s, c) is None,
    decreases s.len(),
{
    if s.len() > 0 {
        lemma_ffirst_none(s.drop_first(), c);
    }
}

/// What one member name contributes under a prefix: nothing when it is not
/// strictly below the prefix; otherwise the remainder up to its first
/// separator, as a synthesized directory when a separator follows, else as a
/// file.
pub open spec fn member_child(m: Seq<u8>, p: Seq<u8>) -> Option<(Seq<u8>, bool)> {
    if is_prefix(p, m) && m.len() > p.len() {
        let rem = m.skip(p.len() as int);
        match ffirst(rem, SLASH) {
            None => Some((rem, false)),
            Some(j) => Some((rem.take(j), true)),
        }
    } else {
        None
    }
}

/// The distinct synthesized subdirectory names of a member list.
pub open spec fn dir_child_names(ms: Seq<Seq<u8>>, p: Seq<u8>) -> Set<Seq<u8>>
    decreases ms.len(),
{
    if ms.len() == 0 {
        Set::empty()
    } else {
        let rest = dir_child_names(ms.drop_last(), p);
        match member_child(ms.last(), p) {
            Some((n, true)) => rest.insert(n),
            _ => rest,
        }
    }
}

/// The file child names of a member list, in scan order.
pub open spec fn file_children(ms: Seq<Seq<u8>>, p: Seq<u8>) -> Seq<Seq<u8>>
    decreases ms.len(),
{
    if ms.len() == 0 {
        Seq::empty()
    } else {
        let rest = file_children(ms.drop_last(), p);
        match member_child(ms.last(), p) {
            Some((n, false)) => rest.push(n),
            _ => rest,
        }
    }
}

/// A child row of an archive listing, addressed inside the archive.
pub open spec fn zip_child_entry(archive: Seq<u8>, cwd: Seq<u8>, name: Seq<u8>, is_dir: bool) -> EntryView {
    EntryView {
        name,
        is_dir,
        location: LocationView::Zip { archive_path: archive, inner_path: zip_join_spec(cwd, name) },
    }
}

/// The parent row of an inner directory: one level up inside the archive.
pub open spec fn dotdot_zip_entry(archive: Seq<u8>, cwd: Seq<u8>) -> EntryView {
    EntryView {
        name: dotdot_name(),
        is_dir: true,
        location: LocationView::Zip { archive_path: archive, inner_path: zip_parent_spec(cwd) },
    }
}

/// Number of directory rows at the front of a listing body.
pub open spec fn count_dirs(es: Seq<EntryView>) -> int
    decreases es.len(),
{
    if es.len() == 0 {
        0int
    } else {
        count_dirs(es.drop_last()) + if es.last().is_dir {
            1int
        } else {
            0int
        }
    }
}

/// Where the body is a directory block followed by a file block, the count
/// gives the boundary.
pub proof fn lemma_count_dirs_blocks(es: Seq<EntryView>, db: int)
    requires
        0 <= db <= es.len(),
        forall|k: int| 0 <= k < db ==> (#[trigger] es[k]).is_dir,
        forall|k: int| db <= k < es.len() ==> !(#[trigger] es[k]).is_dir,
    ensures
        count_dirs(es) == db,
    decreases es.len(),
{
    if es.len() > 0 {
        if es.last().is_dir {
            lemma_count_dirs_blocks(es.drop_last(), db - 1);
        } else {
            lemma_count_dirs_blocks(es.drop_last(), db);
        }
    }
}

/// One more member extends the children by at most its own contribution.
proof fn lemma_children_push(ms: Seq<Seq<u8>>, p: Seq<u8>, x: Seq<u8>)
    ensures
        dir_child_names(ms.push(x), p) == (match member_child(x, p) {
            Some((n, true)) => dir_child_names(ms, p).insert(n),
            _ => dir_child_names(ms, p),
        }),
        file_children(ms.push(x), p) == (match member_child(x, p) {
            Some((n, false)) => file_children(ms, p).push(n),
            _ => file_children(ms, p),
        }),
{
    assert(ms.push(x).drop_last() =~= ms);
    assert(ms.push(x).last() == x);
}

/// Every child row's inner path carries the listing's member-name prefix:
/// nothing outside the inner directory is ever addressed.
pub proof fn lemma_zip_join_prefixed(cwd: Seq<u8>, name: Seq<u8>)
    ensures
        is_prefix(archive_prefix(cwd), zip_join_spec(cwd, name)),
{
    let p = archive_prefix(cwd);
    let j = zip_join_spec(cwd, name);
    if cwd.len() == 0 {
        assert(p =~= j.subrange(0, 0));
    } else {
        assert(p =~= j.subrange(0, p.len() as int));
    }
}

/// An inner path with its leading separators removed, as member names are
/// stored without them.
pub open spec fn strip_leading_slashes(s: Seq<u8>) -> Seq<u8>
    decreases s.len(),
{
    if s.len() > 0 && s[0] == SLASH {
        strip_leading_slashes(s.drop_first())
    } else {
        s
    }
}

/// Stripping leading separators is skipping to the first other byte.
proof fn lemma_strip_leading_skip(s: Seq<u8>, start: int)
    requires
        0 <= start <= s.len(),
        forall|k: int| 0 <= k < start ==> s[k] == SLASH,
        start < s.len() ==> s[start] != SLASH,
    ensures
        strip_leading_slashes(s) == s.skip(start),
    decreases start,
{
    if start == 0 {
        assert(s.skip(0) =~= s);
    } else {
        assert(s[0] == SLASH);
        lemma_strip_leading_skip(s.drop_first(), start - 1);
        assert(forall|k: int| 0 <= k < s.len() - 1 ==> s.drop_first()[k] == s[k + 1]);
        assert(s.drop_first().skip(start - 1) =~= s.skip(start));
    }
}

/// Position of the first member whose name is exactly the inner path (with
/// leading separators removed), the way the preview locates a member.
pub fn find_member(members: &Vec<Vec<u8>>, inner_path: &[u8]) -> (r: Option<usize>)
    ensures
        ({
            let mv = names_view(members@);
            let target = strip_leading_slashes(inner_path@);
            match r {
                Some(i) => i < mv.len() && mv[i as int] == target && forall|k: int|
                    0 <= k < i ==> mv[k] != target,
                None => forall|k: int| 0 <= k < mv.len() ==> mv[k] != target,
            }
        }),
{
    let n0 = inner_path.len();
    let mut start: usize = 0;
    while start < n0 && inner_path[start] == SLASH
        invariant
            start <= n0,
            n0 == inner_path@.len(),
            forall|k: int| 0 <= k < start ==> inner_path@[k] == SLASH,
        decreases n0 - start,
    {
        start += 1;
    }
    proof {
        lemma_strip_leading_skip(inner_path@, start as int);
    }
    let target = vstd::slice::slice_subrange(inner_path, start, n0);
    let n = members.len();
    let mut i: usize = 0;
    while i < n
        invariant
            i <= n,
            n == members@.len(),
            target@ == strip_leading_slashes(inner_path@),
            forall|k: int| 0 <= k < i ==> names_view(members@)[k] != target@,
        decreases n - i,
    {
        if crate::bytes::bytes_eq(members[i].as_slice(), target) {
            proof {
                assert(names_view(members@)[i as int] == members@[i as int]@);
            }
            return Some(i);
        }
        proof {
            assert(names_view(members@)[i as int] == members@[i as int]@);
        }
        i += 1;
    }
    None
}

/// Builds the member-name prefix of an inner directory.
pub fn archive_prefix_of(cwd: &[u8]) -> (r: Vec<u8>)
    ensures
        r@ == archive_prefix(cwd@),
{
    if cwd.len() == 0 {
        Vec::new()
    } else {
        let end = strip_end(cwd);
        let t = vstd::slice::slice_subrange(cwd, 0, end);
        let mut r = vstd::slice::slice_to_vec(t);
        r.push(SLASH);
        proof {
            assert(r@ =~= strip_trailing_slashes(cwd@) + seq![SLASH]);
        }
        r
    }
}

/// Full sorted listing of one inner directory of an archive, computed from
/// the archive's member names: a parent row (into the archive one level up,
/// or into the archive file's own directory at the root), then the distinct
/// synthesized subdirectories sorted by name, then the files sorted by name.
pub fn read_zip_directory(archive_path: &[u8], cwd: &[u8], members: &Vec<Vec<u8>>) -> (r: Vec<DirEntry>)
    ensures
        ({
            let mv = names_view(members@);
            let p = archive_prefix(cwd@);
            let ev = entries_view(r@);
            let head: int = if cwd@.len() > 0 || fs_parent_spec(archive_path@) is Some {
                1int
            } else {
                0int
            };
            let body = ev.skip(head);
            let db = count_dirs(body);
            &&& cwd@.len() > 0 ==> ev.len() >= 1 && ev[0] == dotdot_zip_entry(
                archive_path@,
                cwd@,
            )
            &&& (cwd@.len() == 0 ==> match fs_parent_spec(archive_path@) {
                Some(par) => ev.len() >= 1 && ev[0] == crate::listing::dotdot_fs_entry(par),
                None => true,
            })
            &&& ev.len() == head + db + file_children(mv, p).len()
            &&& 0 <= db <= body.len()
            &&& forall|k: int| 0 <= k < db ==> (#[trigger] body[k]).is_dir
            &&& forall|k: int| db <= k < body.len() ==> !(#[trigger] body[k]).is_dir
            &&& forall|k: int|
                0 <= k < body.len() ==> (#[trigger] body[k]) == zip_child_entry(
                    archive_path@,
                    cwd@,
                    body[k].name,
                    body[k].is_dir,
                )
            &&& strictly_sorted_names(entry_names(body.take(db)))
            &&& sorted_names(entry_names(body.skip(db)))
            &&& forall|x: Seq<u8>|
                entry_names(body.take(db)).contains(x) <==> dir_child_names(mv, p).contains(x)
            &&& entry_names(body.skip(db)).to_multiset() == file_children(mv, p).to_multiset()
            &&& forall|k: int|
                0 <= k < body.len() ==> (match (#[trigger] body[k]).location {
                    LocationView::Zip { archive_path: a, inner_path: ip } => a == archive_path@
                        && is_prefix(p, ip),
                    LocationView::Fs { path } => false,
                })
        }),
{
    broadcast use vstd::seq_lib::group_to_multiset_ensures;

    let prefix = archive_prefix_of(cwd);
    let ghost p = prefix@;
    let ghost mv = names_view(members@);

    let mut dirs: Vec<Vec<u8>> = Vec::new();
    let mut files: Vec<Vec<u8>> = Vec::new();
    let n = members.len();
    let mut i: usize = 0;
    while i < n
        invariant
            i <= n,
            n == members@.len(),
            p == archive_prefix(cwd@),
            prefix@ == p,
            mv == names_view(members@),
            strictly_sorted_names(names_view(dirs@)),
            sorted_names(names_view(files@)),
            forall|x: Seq<u8>|
                names_view(dirs@).contains(x) <==> dir_child_names(mv.take(i as int), p).contains(
                    x,
                ),
            names_view(files@).to_multiset() == file_children(mv.take(i as int), p).to_multiset(),
        decreases n - i,
    {
        let ghost mi = mv.take(i as int);
        let m = &members[i];
        proof {
            assert(mv.take(i + 1) =~= mi.push(m@));
            lemma_children_push(mi, p, m@);
        }
        if starts_with(m.as_slice(), prefix.as_slice()) && m.len() > prefix.len() {
            let rem = vstd::slice::slice_subrange(m.as_slice(), prefix.len(), m.len());
            proof {
                assert(rem@ =~= m@.skip(p.len() as int));
            }
            match find_byte(rem, SLASH) {
                None => {
                    proof {
                        lemma_ffirst_none(rem@, SLASH);
                        assert(member_child(m@, p) == Some((rem@, false)));
                        assert(file_children(mv.take(i + 1), p) == file_children(mi, p).push(
                            rem@,
                        ));
                        vstd::seq_lib::to_multiset_build(file_children(mi, p), rem@);
                    }
                    let nm = copy_bytes(rem);
                    insert_sorted(&mut files, nm);
                },
                Some(j) => {
                    proof {
                        lemma_ffirst_is(rem@, SLASH, j as int);
                    }
                    let nm = vstd::slice::slice_to_vec(
                        vstd::slice::slice_subrange(rem, 0, j),
                    );
                    proof {
                        assert(nm@ =~= rem@.take(j as int));
                    }
                    insert_sorted_unique(&mut dirs, nm);
                },
            }
        } else {
            proof {
                assert(member_child(m@, p) is None);
            }
        }
        i += 1;
    }
    proof {
        assert(mv.take(n as int) =~= mv);
    }

    let mut r: Vec<DirEntry> = Vec::new();
    let ghost head: int = if cwd@.len() > 0 || fs_parent_spec(archive_path@) is Some {
        1int
    } else {
        0int
    };
    if cwd.len() > 0 {
        let par = zip_parent(cwd);
        r.push(
            DirEntry {
                name: dotdot(),
                is_dir: true,
                location: EntryLocation::Zip {
                    archive_path: copy_bytes(archive_path),
                    inner_path: par,
                },
            },
        );
        proof {
            assert(entries_view(r@)[0] == dotdot_zip_entry(archive_path@, cwd@));
        }
    } else {
        match fs_parent(archive_path) {
            Some(par) => {
                proof {
                    assert(par.deep_view() =~= par@);
                }
                r.push(
                    DirEntry { name: dotdot(), is_dir: true, location: EntryLocation::Fs { path: par } },
                );
                proof {
                    if let Some(ps) = fs_parent_spec(archive_path@) {
                        assert(entries_view(r@)[0] == crate::listing::dotdot_fs_entry(ps));
                    }
                }
            },
            None => {},
        }
    }
    proof {
        assert(entries_view(r@).len() == head);
    }

    let nd = dirs.len();
    let mut k: usize = 0;
    while k < nd
        invariant
            k <= nd,
            nd == dirs@.len(),
            r@.len() == head + k,
            head == (if cwd@.len() > 0 || fs_parent_spec(archive_path@) is Some {
                1int
            } else {
                0int
            }),
            cwd@.len() > 0 ==> entries_view(r@)[0] == dotdot_zip_entry(archive_path@, cwd@),
            (cwd@.len() == 0 ==> match fs_parent_spec(archive_path@) {
                Some(par) => entries_view(r@)[0] == crate::listing::dotdot_fs_entry(par),
                None => true,
            }),
            forall|t: int|
                0 <= t < k ==> entries_view(r@)[head + t] == zip_child_entry(
                    archive_path@,
                    cwd@,
                    names_view(dirs@)[t],
                    true,
                ),
        decreases nd - k,
    {
        let nm = copy_bytes(dirs[k].as_slice());
        let inner = zip_join(cwd, nm.as_slice());
        r.push(
            DirEntry {
                name: nm,
                is_dir: true,
                location: EntryLocation::Zip {
                    archive_path: copy_bytes(archive_path),
                    inner_path: inner,
                },
            },
        );
        k += 1;
    }

    let nf = files.len();
    let mut k2: usize = 0;
    while k2 < nf
        invariant
            k2 <= nf,
            nf == files@.len(),
            nd == dirs@.len(),
            r@.len() == head + nd + k2,
            head == (if cwd@.len() > 0 || fs_parent_spec(archive_path@) is Some {
                1int
            } else {
                0int
            }),
            cwd@.len() > 0 ==> entries_view(r@)[0] == dotdot_zip_entry(archive_path@, cwd@),
            (cwd@.len() == 0 ==> match fs_parent_spec(archive_path@) {
                Some(par) => entries_view(r@)[0] == crate::listing::dotdot_fs_entry(par),
                None => true,
            }),
            forall|t: int|
                0 <= t < nd ==> entries_view(r@)[head + t] == zip_child_entry(
                    archive_path@,
                    cwd@,
                    names_view(dirs@)[t],
                    true,
                ),
            forall|t: int|
                0 <= t < k2 ==> entries_view(r@)[head + nd + t] == zip_child_entry(
                    archive_path@,
                    cwd@,
                    names_view(files@)[t],
                    false,
                ),
        decreases nf - k2,
    {
        let nm = copy_bytes(files[k2].as_slice());
        let inner = zip_join(cwd, nm.as_slice());
        r.push(
            DirEntry {
                name: nm,
                is_dir: false,
                location: EntryLocation::Zip {
                    archive_path: copy_bytes(archive_path),
                    inner_path: inner,
                },
            },
        );
        k2 += 1;
    }

    proof {
        let ev = entries_view(r@);
        let body = ev.skip(head);
        assert forall|t: int| 0 <= t < body.len() implies #[trigger] body[t] == ev[head + t] by {}
        assert forall|t: int| 0 <= t < nd implies (#[trigger] body[t]).is_dir && body[t]
            == zip_child_entry(archive_path@, cwd@, body[t].name, body[t].is_dir) by {
            assert(ev[head + t] == zip_child_entry(archive_path@, cwd@, names_view(dirs@)[t], true));
        }
        assert forall|t: int| nd <= t < body.len() implies !(#[trigger] body[t]).is_dir && body[t]
            == zip_child_entry(archive_path@, cwd@, body[t].name, body[t].is_dir) by {
            assert(ev[head + t] == zip_child_entry(
                archive_path@,
                cwd@,
                names_view(files@)[t - nd],
                false,
            ));
        }
        lemma_count_dirs_blocks(body, nd as int);
        assert forall|k: int| 0 <= k < body.len() implies (match (#[trigger] body[k]).location {
            LocationView::Zip { archive_path: a, inner_path: ip } => a == archive_path@
                && is_prefix(p, ip),
            LocationView::Fs { path } => false,
        }) by {
            assert(body[k] == zip_child_entry(archive_path@, cwd@, body[k].name, body[k].is_dir));
            lemma_zip_join_prefixed(cwd@, body[k].name);
        }
        assert(entry_names(body.take(nd as int)) =~= names_view(dirs@));
        assert(entry_names(body.skip(nd as int)) =~= names_view(files@));
        assert(names_view(files@).to_multiset().len() == names_view(files@).len());
        assert(file_children(mv, p).to_multiset().len() == file_children(mv, p).len());
    }
    r
}

} // verus!
