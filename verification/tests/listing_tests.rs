use dual_pane::archive::{find_member, read_zip_directory};
use dual_pane::entry::EntryLocation;
use dual_pane::listing::{read_fs_directory, RawEntry};
use dual_pane::paths::{
    extension_of, fs_basename, fs_parent, is_image_path, is_text_path, is_zip_path, join_path,
    zip_join, zip_last_segment, zip_parent,
};

fn bytes(s: &str) -> Vec<u8> {
    s.as_bytes().to_vec()
}

fn raw(name: &str, is_dir: bool) -> RawEntry {
    RawEntry { name: bytes(name), is_dir }
}

fn names_of(entries: &[dual_pane::entry::DirEntry]) -> Vec<Vec<u8>> {
    entries.iter().map(|e| e.name.clone()).collect()
}

#[test]
fn fs_listing_all_files_sorts_bytewise() {
    // Files only: byte-wise alphabetical, after the parent row.
    let rawv = vec![raw("b.txt", false), raw("A", false), raw("a.txt", false)];
    let r = read_fs_directory(b"/home/user/stuff", &rawv);
    assert_eq!(
        names_of(&r),
        vec![bytes(".."), bytes("A"), bytes("a.txt"), bytes("b.txt")]
    );
    assert!(r[0].is_dir);
    match &r[0].location {
        EntryLocation::Fs { path } => assert_eq!(path, &bytes("/home/user")),
        _ => panic!("parent row must be a filesystem location"),
    }
    match &r[2].location {
        EntryLocation::Fs { path } => assert_eq!(path, &bytes("/home/user/stuff/a.txt")),
        _ => panic!("child must be a filesystem location"),
    }
}

#[test]
fn fs_listing_directory_sorts_before_all_files() {
    // A real subdirectory named "A" sorts before every file, regardless of name.
    let rawv = vec![raw("b.txt", false), raw("a.txt", false), raw("A", true)];
    let r = read_fs_directory(b"/home/user/stuff", &rawv);
    assert_eq!(
        names_of(&r),
        vec![bytes(".."), bytes("A"), bytes("a.txt"), bytes("b.txt")]
    );
    assert!(r[1].is_dir);
    assert!(!r[2].is_dir);
}

#[test]
fn fs_listing_at_root_has_no_parent_row() {
    let rawv = vec![raw("etc", true), raw("vmlinuz", false)];
    let r = read_fs_directory(b"/", &rawv);
    assert_eq!(names_of(&r), vec![bytes("etc"), bytes("vmlinuz")]);
}

#[test]
fn fs_listing_empty_directory() {
    let r = read_fs_directory(b"/", &Vec::new());
    assert!(r.is_empty());
    let r2 = read_fs_directory(b"/tmp", &Vec::new());
    assert_eq!(names_of(&r2), vec![bytes("..")]);
}

#[test]
fn fs_listing_same_name_dir_before_file() {
    let rawv = vec![raw("x", false), raw("x", true)];
    let r = read_fs_directory(b"/d", &rawv);
    assert_eq!(names_of(&r), vec![bytes(".."), bytes("x"), bytes("x")]);
    assert!(r[1].is_dir);
    assert!(!r[2].is_dir);
}

#[test]
fn archive_listing_at_root() {
    let members = vec![
        bytes("src/main.txt"),
        bytes("src/lib/util.txt"),
        bytes("readme.md"),
    ];
    let r = read_zip_directory(b"/tmp/a.zip", b"", &members);
    assert_eq!(
        names_of(&r),
        vec![bytes(".."), bytes("src"), bytes("readme.md")]
    );
    // The root's parent row leads back out into the filesystem.
    match &r[0].location {
        EntryLocation::Fs { path } => assert_eq!(path, &bytes("/tmp")),
        _ => panic!("root parent row must leave the archive"),
    }
    assert!(r[1].is_dir);
    match &r[1].location {
        EntryLocation::Zip { archive_path, inner_path } => {
            assert_eq!(archive_path, &bytes("/tmp/a.zip"));
            assert_eq!(inner_path, &bytes("src"));
        }
        _ => panic!("subdirectory must be inside the archive"),
    }
    assert!(!r[2].is_dir);
}

#[test]
fn archive_listing_inner_directory() {
    let members = vec![
        bytes("src/main.txt"),
        bytes("src/lib/util.txt"),
        bytes("readme.md"),
    ];
    let r = read_zip_directory(b"/tmp/a.zip", b"src", &members);
    assert_eq!(
        names_of(&r),
        vec![bytes(".."), bytes("lib"), bytes("main.txt")]
    );
    match &r[0].location {
        EntryLocation::Zip { inner_path, .. } => assert_eq!(inner_path, &bytes("")),
        _ => panic!("inner parent row stays inside the archive"),
    }
    assert!(r[1].is_dir);
    assert!(!r[2].is_dir);
}

#[test]
fn archive_listing_deduplicates_synthesized_directories() {
    let members = vec![bytes("p/a/x"), bytes("p/a/y"), bytes("p/b"), bytes("p/a/z/w")];
    let r = read_zip_directory(b"/ar.zip", b"p", &members);
    assert_eq!(names_of(&r), vec![bytes(".."), bytes("a"), bytes("b")]);
    // Every child row's inner path carries the `p/` prefix.
    for e in r.iter().skip(1) {
        match &e.location {
            EntryLocation::Zip { inner_path, .. } => {
                assert!(inner_path.starts_with(b"p/"));
            }
            _ => panic!("children of an inner directory stay inside the archive"),
        }
    }
}

#[test]
fn archive_listing_no_entry_outside_prefix() {
    let members = vec![bytes("q/other"), bytes("p/a"), bytes("pq/b")];
    let r = read_zip_directory(b"/ar.zip", b"p", &members);
    // Only "p/a" is under "p/": neither "q/other" nor "pq/b" contributes.
    assert_eq!(names_of(&r), vec![bytes(".."), bytes("a")]);
}

#[test]
fn find_member_strips_leading_separators() {
    let members = vec![bytes("readme.md"), bytes("src/main.txt")];
    assert_eq!(find_member(&members, b"/src/main.txt"), Some(1));
    assert_eq!(find_member(&members, b"src/main.txt"), Some(1));
    assert_eq!(find_member(&members, b"missing"), None);
}

#[test]
fn fs_parent_and_basename() {
    assert_eq!(fs_parent(b"/a/b"), Some(bytes("/a")));
    assert_eq!(fs_parent(b"/a"), Some(bytes("/")));
    assert_eq!(fs_parent(b"/"), None);
    assert_eq!(fs_parent(b""), None);
    assert_eq!(fs_parent(b"rel"), None);
    assert_eq!(fs_parent(b"/a/b/"), Some(bytes("/a")));
    assert_eq!(fs_basename(b"/a/b.txt"), Some(bytes("b.txt")));
    assert_eq!(fs_basename(b"/"), None);
    assert_eq!(fs_basename(b"plain"), Some(bytes("plain")));
}

#[test]
fn zip_path_helpers() {
    assert_eq!(zip_parent(b"a/b/c"), bytes("a/b"));
    assert_eq!(zip_parent(b"a"), bytes(""));
    assert_eq!(zip_last_segment(b"a/b/c"), bytes("c"));
    assert_eq!(zip_last_segment(b"a"), bytes("a"));
    assert_eq!(zip_join(b"", b"x"), bytes("x"));
    assert_eq!(zip_join(b"a/b", b"x"), bytes("a/b/x"));
    assert_eq!(join_path(b"/d", b"x"), bytes("/d/x"));
    assert_eq!(join_path(b"/", b"x"), bytes("/x"));
}

#[test]
fn extension_classifiers() {
    assert_eq!(extension_of(b"/d/a.tar.gz"), Some(bytes("gz")));
    assert_eq!(extension_of(b"/d/.bashrc"), None);
    assert_eq!(extension_of(b"/d/noext"), None);
    assert!(is_zip_path(b"/d/Archive.ZIP"));
    assert!(!is_zip_path(b"/d/archive.zip.txt"));
    assert!(is_image_path(b"/d/photo.JpEg"));
    assert!(is_image_path(b"/d/p.png"));
    assert!(!is_image_path(b"/d/p.txt"));
    assert!(is_text_path(b"/d/notes.md"));
    assert!(!is_text_path(b"/d/prog.exe"));
}
