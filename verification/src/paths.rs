//! The byte-string path model: filesystem paths use `/` as separator, archive
//! inner paths use `/` with no leading separator (empty means archive root).

use vstd::prelude::*;

verus! {

pub const SLASH: u8 = 0x2f;

pub const DOT: u8 = 0x2e;

/// Index of the last occurrence of `c`, as a recursive definition.
pub open spec fn rlast(p: Seq<u8>, c: u8) -> Option<int>
    decreases p.len(),
{
    if p.len() == 0 {
        None
    } else if p.last() == c {
        Some(p.len() - 1)
    } else {
        rlast(p.drop_last(), c)
    }
}

/// `rlast` finds the last occurrence and nothing later.
pub proof fn lemma_rlast_char(p: Seq<u8>, c: u8)
    ensures
        match rlast(p, c) {
            Some(j) => 0 <= j < p.len() && p[j] == c && forall|k: int|
                j < k < p.len() ==> p[k] != c,
            None => forall|k: int| 0 <= k < p.len() ==> p[k] != c,
        },
    decreases p.len(),
{
    if p.len() > 0 && p.last() != c {
        lemma_rlast_char(p.drop_last(), c);
        assert(forall|k: int| 0 <= k < p.len() - 1 ==> p[k] == p.drop_last()[k]);
    }
}

/// Where an index carries the last-occurrence property, `rlast` finds it.
pub proof fn lemma_rlast_is(p: Seq<u8>, c: u8, i: int)
    requires
        0 <= i < p.len(),
        p[i] == c,
        forall|k: int| i < k < p.len() ==> p[k] != c,
    ensures
        rlast(p, c) == Some(i),
{
    lemma_rlast_char(p, c);
    match rlast(p, c) {
        None => {
            assert(p[i] != c);
        },
        Some(j) => {
            if i < j {
                assert(p[j] != c);
            }
            if j < i {
                assert(p[i] != c);
            }
        },
    }
}

/// Where no byte is `c`, `rlast` finds nothing.
pub proof fn lemma_rlast_none(p: Seq<u8>, c: u8)
    requires
        forall|k: int| 0 <= k < p.len() ==> p[k] != c,
    ensures
        rlast(p, c) is None,
{
    lemma_rlast_char(p, c);
    if let Some(j) = rlast(p, c) {
        assert(p[j] != c);
    }
}

/// The sequence with all trailing separators removed.
pub open spec fn strip_trailing_slashes(p: Seq<u8>) -> Seq<u8>
    decreases p.len(),
{
    if p.len() > 0 && p.last() == SLASH {
        strip_trailing_slashes(p.drop_last())
    } else {
        p
    }
}

/// Stripping trailing separators is taking the prefix up to the last
/// non-separator byte.
pub proof fn lemma_strip_take(p: Seq<u8>, end: int)
    requires
        0 <= end <= p.len(),
        forall|k: int| end <= k < p.len() ==> p[k] == SLASH,
        end > 0 ==> p[end - 1] != SLASH,
    ensures
        strip_trailing_slashes(p) == p.take(end),
    decreases p.len(),
{
    if p.len() == end {
        assert(p.take(end) =~= p);
    } else {
        assert(p.last() == SLASH);
        assert(forall|k: int| 0 <= k < p.len() - 1 ==> p[k] == p.drop_last()[k]);
        lemma_strip_take(p.drop_last(), end);
        assert(p.drop_last().take(end) =~= p.take(end));
    }
}

/// Parent of a filesystem path: the prefix before the last separator of the
/// path with trailing separators removed; `/` keeps the root; a path without
/// separators has no parent.
pub open spec fn fs_parent_spec(p: Seq<u8>) -> Option<Seq<u8>> {
    let t = strip_trailing_slashes(p);
    match rlast(t, SLASH) {
        None => None,
        Some(j) => if j == 0 {
            Some(t.take(1))
        } else {
            Some(t.take(j))
        },
    }
}

/// Final segment of a filesystem path, after trailing separators are removed.
pub open spec fn fs_basename_spec(p: Seq<u8>) -> Option<Seq<u8>> {
    let t = strip_trailing_slashes(p);
    if t.len() == 0 {
        None
    } else {
        match rlast(t, SLASH) {
            None => Some(t),
            Some(j) => Some(t.skip(j + 1)),
        }
    }
}

/// Parent of an archive inner path: the prefix before the last separator, or
/// the archive root.
pub open spec fn zip_parent_spec(cwd: Seq<u8>) -> Seq<u8> {
    let t = strip_trailing_slashes(cwd);
    match rlast(t, SLASH) {
        None => Seq::empty(),
        Some(j) => t.take(j),
    }
}

/// Final segment of an archive inner path.
pub open spec fn zip_last_segment_spec(cwd: Seq<u8>) -> Seq<u8> {
    let t = strip_trailing_slashes(cwd);
    match rlast(t, SLASH) {
        None => t,
        Some(j) => t.skip(j + 1),
    }
}

/// A directory path joined with a child name.
pub open spec fn join_spec(dir: Seq<u8>, name: Seq<u8>) -> Seq<u8> {
    if dir.len() == 0 {
        name
    } else if dir.last() == SLASH {
        dir + name
    } else {
        dir + seq![SLASH] + name
    }
}

/// An archive inner path joined with a child name: at the root the child name
/// stands alone.
pub open spec fn zip_join_spec(cwd: Seq<u8>, name: Seq<u8>) -> Seq<u8> {
    if cwd.len() == 0 {
        name
    } else {
        strip_trailing_slashes(cwd) + seq![SLASH] + name
    }
}

/// Extension of a path: the part of the final segment after its last dot,
/// absent when there is no dot or when the only dot starts a hidden name.
pub open spec fn extension_spec(p: Seq<u8>) -> Option<Seq<u8>> {
    match fs_basename_spec(p) {
        None => None,
        Some(name) => match rlast(name, DOT) {
            None => None,
            Some(j) => if j == 0 {
                None
            } else {
                Some(name.skip(j + 1))
            },
        },
    }
}

/// Position one past the last non-separator byte, as executable code.
pub fn strip_end(p: &[u8]) -> (end: usize)
    ensures
        end <= p@.len(),
        strip_trailing_slashes(p@) == p@.take(end as int),
{
    let mut end = p.len();
    while end > 0 && p[end - 1] == SLASH
        invariant
            end <= p@.len(),
            forall|k: int| end <= k < p@.len() ==> p@[k] == SLASH,
        decreases end,
    {
        end -= 1;
    }
    proof {
        lemma_strip_take(p@, end as int);
    }
    end
}

/// Parent of a filesystem path, `None` where there is none.
pub fn fs_parent(p: &[u8]) -> (r: Option<Vec<u8>>)
    ensures
        r.deep_view() == fs_parent_spec(p@),
{
    let end = strip_end(p);
    let t = vstd::slice::slice_subrange(p, 0, end);
    match crate::bytes::rfind_byte(t, SLASH) {
        None => {
            proof {
                lemma_rlast_none(t@, SLASH);
            }
            None
        },
        Some(i) => {
            proof {
                lemma_rlast_is(t@, SLASH, i as int);
            }
            if i == 0 {
                let r = vstd::slice::slice_to_vec(vstd::slice::slice_subrange(t, 0, 1));
                Some(r)
            } else {
                let r = vstd::slice::slice_to_vec(vstd::slice::slice_subrange(t, 0, i));
                Some(r)
            }
        },
    }
}

/// Final segment of a filesystem path, `None` for the root or an empty path.
pub fn fs_basename(p: &[u8]) -> (r: Option<Vec<u8>>)
    ensures
        r.deep_view() == fs_basename_spec(p@),
{
    let end = strip_end(p);
    let t = vstd::slice::slice_subrange(p, 0, end);
    if end == 0 {
        return None;
    }
    match crate::bytes::rfind_byte(t, SLASH) {
        None => {
            proof {
                lemma_rlast_none(t@, SLASH);
            }
            Some(vstd::slice::slice_to_vec(t))
        },
        Some(i) => {
            proof {
                lemma_rlast_is(t@, SLASH, i as int);
            }
            let r = vstd::slice::slice_to_vec(vstd::slice::slice_subrange(t, i + 1, t.len()));
            proof {
                assert(t@.subrange(i + 1, t@.len() as int) =~= t@.skip(i + 1));
            }
            Some(r)
        },
    }
}

/// Parent of an archive inner path; the empty result is the archive root.
pub fn zip_parent(cwd: &[u8]) -> (r: Vec<u8>)
    ensures
        r@ == zip_parent_spec(cwd@),
{
    let end = strip_end(cwd);
    let t = vstd::slice::slice_subrange(cwd, 0, end);
    match crate::bytes::rfind_byte(t, SLASH) {
        None => {
            proof {
                lemma_rlast_none(t@, SLASH);
                assert(Seq::<u8>::empty() =~= zip_parent_spec(cwd@));
            }
            Vec::new()
        },
        Some(i) => {
            proof {
                lemma_rlast_is(t@, SLASH, i as int);
            }
            vstd::slice::slice_to_vec(vstd::slice::slice_subrange(t, 0, i))
        },
    }
}

/// Final segment of an archive inner path.
pub fn zip_last_segment(cwd: &[u8]) -> (r: Vec<u8>)
    ensures
        r@ == zip_last_segment_spec(cwd@),
{
    let end = strip_end(cwd);
    let t = vstd::slice::slice_subrange(cwd, 0, end);
    match crate::bytes::rfind_byte(t, SLASH) {
        None => {
            proof {
                lemma_rlast_none(t@, SLASH);
            }
            vstd::slice::slice_to_vec(t)
        },
        Some(i) => {
            proof {
                lemma_rlast_is(t@, SLASH, i as int);
                assert(t@.subrange(i + 1, t@.len() as int) =~= t@.skip(i + 1));
            }
            vstd::slice::slice_to_vec(vstd::slice::slice_subrange(t, i + 1, t.len()))
        },
    }
}

/// A directory path joined with a child name.
pub fn join_path(dir: &[u8], name: &[u8]) -> (r: Vec<u8>)
    ensures
        r@ == join_spec(dir@, name@),
{
    let mut r = vstd::slice::slice_to_vec(dir);
    if dir.len() > 0 && *vstd::slice::slice_index_get(dir, dir.len() - 1) != SLASH {
        r.push(SLASH);
    }
    let mut i: usize = 0;
    let n = name.len();
    while i < n
        invariant
            i <= n,
            n == name@.len(),
            r@ == (if dir@.len() == 0 || dir@.last() == SLASH {
                dir@
            } else {
                dir@ + seq![SLASH]
            }) + name@.take(i as int),
        decreases n - i,
    {
        let b = *vstd::slice::slice_index_get(name, i);
        r.push(b);
        proof {
            assert(name@.take(i + 1) =~= name@.take(i as int) + seq![name@[i as int]]);
        }
        i += 1;
    }
    proof {
        assert(name@.take(n as int) =~= name@);
        if dir@.len() == 0 {
            assert(r@ =~= join_spec(dir@, name@));
        }
    }
    r
}

/// An archive inner path joined with a child name.
pub fn zip_join(cwd: &[u8], name: &[u8]) -> (r: Vec<u8>)
    ensures
        r@ == zip_join_spec(cwd@, name@),
{
    if cwd.len() == 0 {
        return vstd::slice::slice_to_vec(name);
    }
    let end = strip_end(cwd);
    let t = vstd::slice::slice_subrange(cwd, 0, end);
    let mut r = vstd::slice::slice_to_vec(t);
    r.push(SLASH);
    let mut i: usize = 0;
    let n = name.len();
    while i < n
        invariant
            i <= n,
            n == name@.len(),
            r@ == t@ + seq![SLASH] + name@.take(i as int),
        decreases n - i,
    {
        let b = *vstd::slice::slice_index_get(name, i);
        r.push(b);
        proof {
            assert(name@.take(i + 1) =~= name@.take(i as int) + seq![name@[i as int]]);
        }
        i += 1;
    }
    proof {
        assert(name@.take(n as int) =~= name@);
    }
    r
}

/// ASCII lower-casing of one byte.
pub open spec fn to_lower(c: u8) -> u8 {
    if 0x41 <= c <= 0x5a {
        (c + 0x20) as u8
    } else {
        c
    }
}

/// ASCII lower-casing of a byte string.
pub open spec fn lower_seq(s: Seq<u8>) -> Seq<u8> {
    s.map_values(|c: u8| to_lower(c))
}

/// Whether the path's extension, lower-cased, is exactly `lit`.
pub open spec fn ext_matches(p: Seq<u8>, lit: Seq<u8>) -> bool {
    match extension_spec(p) {
        Some(e) => lower_seq(e) == lit,
        None => false,
    }
}

/// Paths that name a zip archive.
pub open spec fn is_zip_path_spec(p: Seq<u8>) -> bool {
    ext_matches(p, seq![0x7a, 0x69, 0x70])
}

/// Paths on the image-extension allowlist.
pub open spec fn is_image_path_spec(p: Seq<u8>) -> bool {
    ||| ext_matches(p, seq![0x70, 0x6e, 0x67])
    ||| ext_matches(p, seq![0x6a, 0x70, 0x67])
    ||| ext_matches(p, seq![0x6a, 0x70, 0x65, 0x67])
    ||| ext_matches(p, seq![0x67, 0x69, 0x66])
    ||| ext_matches(p, seq![0x62, 0x6d, 0x70])
    ||| ext_matches(p, seq![0x77, 0x65, 0x62, 0x70])
}

/// Paths with a well-known text extension.
pub open spec fn is_text_path_spec(p: Seq<u8>) -> bool {
    ||| ext_matches(p, seq![0x74, 0x78, 0x74])
    ||| ext_matches(p, seq![0x6d, 0x64])
    ||| ext_matches(p, seq![0x6a, 0x73, 0x6f, 0x6e])
    ||| ext_matches(p, seq![0x74, 0x6f, 0x6d, 0x6c])
    ||| ext_matches(p, seq![0x79, 0x61, 0x6d, 0x6c])
    ||| ext_matches(p, seq![0x79, 0x6d, 0x6c])
    ||| ext_matches(p, seq![0x72, 0x73])
    ||| ext_matches(p, seq![0x6c, 0x6f, 0x67])
    ||| ext_matches(p, seq![0x69, 0x6e, 0x69])
    ||| ext_matches(p, seq![0x63, 0x73, 0x76])
}

/// ASCII lower-casing as executable code.
fn lower_byte(c: u8) -> (r: u8)
    ensures
        r == to_lower(c),
{
    if 0x41 <= c && c <= 0x5a {
        c + 0x20
    } else {
        c
    }
}

/// Whether the lower-cased bytes are exactly the two given (lower-case)
/// bytes.
fn lower_is2(e: &[u8], a: u8, b: u8) -> (r: bool)
    ensures
        r == (lower_seq(e@) == seq![a, b]),
{
    if e.len() != 2 {
        proof {
            assert(lower_seq(e@).len() != 2);
        }
        return false;
    }
    let r = lower_byte(e[0]) == a && lower_byte(e[1]) == b;
    proof {
        assert(lower_seq(e@)[0] == to_lower(e@[0]));
        assert(lower_seq(e@)[1] == to_lower(e@[1]));
        if r {
            assert(lower_seq(e@) =~= seq![a, b]);
        }
    }
    r
}

/// Whether the lower-cased bytes are exactly the three given bytes.
fn lower_is3(e: &[u8], a: u8, b: u8, c: u8) -> (r: bool)
    ensures
        r == (lower_seq(e@) == seq![a, b, c]),
{
    if e.len() != 3 {
        proof {
            assert(lower_seq(e@).len() != 3);
        }
        return false;
    }
    let r = lower_byte(e[0]) == a && lower_byte(e[1]) == b && lower_byte(e[2]) == c;
    proof {
        assert(lower_seq(e@)[0] == to_lower(e@[0]));
        assert(lower_seq(e@)[1] == to_lower(e@[1]));
        assert(lower_seq(e@)[2] == to_lower(e@[2]));
        if r {
            assert(lower_seq(e@) =~= seq![a, b, c]);
        }
    }
    r
}

/// Whether the lower-cased bytes are exactly the four given bytes.
fn lower_is4(e: &[u8], a: u8, b: u8, c: u8, d: u8) -> (r: bool)
    ensures
        r == (lower_seq(e@) == seq![a, b, c, d]),
{
    if e.len() != 4 {
        proof {
            assert(lower_seq(e@).len() != 4);
        }
        return false;
    }
    let r = lower_byte(e[0]) == a && lower_byte(e[1]) == b && lower_byte(e[2]) == c && lower_byte(
        e[3],
    ) == d;
    proof {
        assert(lower_seq(e@)[0] == to_lower(e@[0]));
        assert(lower_seq(e@)[1] == to_lower(e@[1]));
        assert(lower_seq(e@)[2] == to_lower(e@[2]));
        assert(lower_seq(e@)[3] == to_lower(e@[3]));
        if r {
            assert(lower_seq(e@) =~= seq![a, b, c, d]);
        }
    }
    r
}

/// Does the path name a zip archive, by extension?
pub fn is_zip_path(p: &[u8]) -> (r: bool)
    ensures
        r == is_zip_path_spec(p@),
{
    match extension_of(p) {
        None => false,
        Some(e) => {
            proof {
                assert(e.deep_view() =~= e@);
            }
            lower_is3(e.as_slice(), 0x7a, 0x69, 0x70)
        },
    }
}

/// Does the path name an image, by extension?
pub fn is_image_path(p: &[u8]) -> (r: bool)
    ensures
        r == is_image_path_spec(p@),
{
    match extension_of(p) {
        None => false,
        Some(e) => {
            proof {
                assert(e.deep_view() =~= e@);
            }
            let s = e.as_slice();
            lower_is3(s, 0x70, 0x6e, 0x67) || lower_is3(s, 0x6a, 0x70, 0x67) || lower_is4(
                s,
                0x6a,
                0x70,
                0x65,
                0x67,
            ) || lower_is3(s, 0x67, 0x69, 0x66) || lower_is3(s, 0x62, 0x6d, 0x70) || lower_is4(
                s,
                0x77,
                0x65,
                0x62,
                0x70,
            )
        },
    }
}

/// Does the path have a well-known text extension?
pub fn is_text_path(p: &[u8]) -> (r: bool)
    ensures
        r == is_text_path_spec(p@),
{
    match extension_of(p) {
        None => false,
        Some(e) => {
            proof {
                assert(e.deep_view() =~= e@);
            }
            let s = e.as_slice();
            lower_is3(s, 0x74, 0x78, 0x74) || lower_is2(s, 0x6d, 0x64) || lower_is4(
                s,
                0x6a,
                0x73,
                0x6f,
                0x6e,
            ) || lower_is4(s, 0x74, 0x6f, 0x6d, 0x6c) || lower_is4(s, 0x79, 0x61, 0x6d, 0x6c)
                || lower_is3(s, 0x79, 0x6d, 0x6c) || lower_is2(s, 0x72, 0x73) || lower_is3(
                s,
                0x6c,
                0x6f,
                0x67,
            ) || lower_is3(s, 0x69, 0x6e, 0x69) || lower_is3(s, 0x63, 0x73, 0x76)
        },
    }
}

/// Extension of a path, `None` where the model gives none.
pub fn extension_of(p: &[u8]) -> (r: Option<Vec<u8>>)
    ensures
        r.deep_view() == extension_spec(p@),
{
    match fs_basename(p) {
        None => None,
        Some(name) => {
            proof {
                assert(name.deep_view() =~= name@);
            }
            match crate::bytes::rfind_byte(name.as_slice(), DOT) {
                None => {
                    proof {
                        lemma_rlast_none(name@, DOT);
                    }
                    None
                },
                Some(i) => {
                    proof {
                        lemma_rlast_is(name@, DOT, i as int);
                    }
                    if i == 0 {
                        None
                    } else {
                        let r = vstd::slice::slice_to_vec(
                            vstd::slice::slice_subrange(name.as_slice(), i + 1, name.len()),
                        );
                        proof {
                            assert(name@.subrange(i + 1, name@.len() as int) =~= name@.skip(i + 1));
                            assert(r.deep_view() =~= r@);
                        }
                        Some(r)
                    }
                },
            }
        },
    }
}

} // verus!
