use dual_pane::engine::{
    CopyJob, FileSystemModel, NavRequest, PreviewContent, PreviewFetch, PumpEvent,
};
use dual_pane::entry::{ActivePanel, DirEntry, EntryLocation, PanelMode};
use dual_pane::listing::{read_fs_directory, RawEntry};
use dual_pane::memory::SelectionMemory;
use dual_pane::stream::{plan_batches, Chunker};
use dual_pane::theme::ThemeKind;

fn bytes(s: &str) -> Vec<u8> {
    s.as_bytes().to_vec()
}

fn raw(name: &str, is_dir: bool) -> RawEntry {
    RawEntry { name: bytes(name), is_dir }
}

fn file_entry(dir: &str, name: &str) -> DirEntry {
    DirEntry {
        name: bytes(name),
        is_dir: false,
        location: EntryLocation::Fs { path: bytes(&format!("{}/{}", dir, name)) },
    }
}

fn panel_names(m: &FileSystemModel, which: ActivePanel) -> Vec<Vec<u8>> {
    m.panel(which).entries.iter().map(|e| e.name.clone()).collect()
}

/// Streams a fully computed listing into a panel, the way the shell would:
/// the body in batches, then the end of the stream.
fn stream_listing(m: &mut FileSystemModel, which: ActivePanel, listing: &Vec<DirEntry>, rows: usize) {
    for batch in plan_batches(listing, 128, 500) {
        m.pump_panel(which, PumpEvent::Batch(batch), rows);
    }
    m.pump_panel(which, PumpEvent::Closed, rows);
}

fn window_invariant_holds(m: &FileSystemModel, which: ActivePanel, rows: usize) -> bool {
    let p = m.panel(which);
    let len = p.entries.len();
    if len == 0 {
        p.selected_index == 0 && p.top_index == 0
    } else {
        let max_top = if len > rows { len - rows } else { 0 };
        p.selected_index < len
            && p.top_index <= p.selected_index
            && p.selected_index < p.top_index + rows
            && p.top_index <= max_top
    }
}

#[test]
fn pump_with_empty_or_closed_queue_changes_nothing() {
    let mut m = FileSystemModel::new(bytes("/d"));
    m.begin_fs_navigation(ActivePanel::Left, bytes("/d/sub"), None);
    assert!(m.left_panel.streaming);
    let names0 = panel_names(&m, ActivePanel::Left);
    let sel0 = m.left_panel.selected_index;

    // An empty receive keeps everything, queue included.
    m.pump_panel(ActivePanel::Left, PumpEvent::Empty, 10);
    assert_eq!(panel_names(&m, ActivePanel::Left), names0);
    assert_eq!(m.left_panel.selected_index, sel0);
    assert!(m.left_panel.streaming);

    // The closed queue is dropped; entries and cursor stay.
    m.pump_panel(ActivePanel::Left, PumpEvent::Closed, 10);
    assert_eq!(panel_names(&m, ActivePanel::Left), names0);
    assert_eq!(m.left_panel.selected_index, sel0);
    assert!(!m.left_panel.streaming);

    // With no queue, even a batch event is a no-op.
    let stray = vec![file_entry("/d/sub", "late")];
    m.pump_panel(ActivePanel::Left, PumpEvent::Batch(stray), 10);
    assert_eq!(panel_names(&m, ActivePanel::Left), names0);
    assert_eq!(m.left_panel.selected_index, sel0);
}

#[test]
fn page_down_moves_cursor_and_window() {
    let mut m = FileSystemModel::new(bytes("/"));
    m.begin_fs_navigation(ActivePanel::Left, bytes("/"), None);
    let mut batch = Vec::new();
    for i in 0..1000 {
        batch.push(file_entry("", &format!("f{:04}", i)));
    }
    m.pump_panel(ActivePanel::Left, PumpEvent::Batch(batch), 10);
    m.pump_panel(ActivePanel::Left, PumpEvent::Closed, 10);
    assert_eq!(m.left_panel.entries.len(), 1000);

    m.select_entry(5, 10);
    assert_eq!(m.left_panel.selected_index, 5);
    assert_eq!(m.left_panel.top_index, 0);

    m.page_down(10);
    assert_eq!(m.left_panel.selected_index, 15);
    assert_eq!(m.left_panel.top_index, 6);

    m.page_up(10);
    assert_eq!(m.left_panel.selected_index, 5);
}

#[test]
fn window_invariant_survives_command_sequences() {
    let rows = 10;
    let mut m = FileSystemModel::new(bytes("/"));
    m.begin_fs_navigation(ActivePanel::Left, bytes("/"), None);
    let mut batch = Vec::new();
    for i in 0..100 {
        batch.push(file_entry("", &format!("f{:03}", i)));
    }
    m.pump_panel(ActivePanel::Left, PumpEvent::Batch(batch), rows);
    assert!(window_invariant_holds(&m, ActivePanel::Left, rows));
    m.select_entry(57, rows);
    assert!(window_invariant_holds(&m, ActivePanel::Left, rows));
    m.page_down(rows);
    assert!(window_invariant_holds(&m, ActivePanel::Left, rows));
    m.on_scroll(-30, rows);
    assert!(window_invariant_holds(&m, ActivePanel::Left, rows));
    m.on_scroll(500, rows);
    assert!(window_invariant_holds(&m, ActivePanel::Left, rows));
    m.move_selection_next(rows);
    assert!(window_invariant_holds(&m, ActivePanel::Left, rows));
    m.move_selection_prev(rows);
    assert!(window_invariant_holds(&m, ActivePanel::Left, rows));
    m.pump_panel(ActivePanel::Left, PumpEvent::Closed, rows);
    assert!(window_invariant_holds(&m, ActivePanel::Left, rows));
}

#[test]
fn manual_scroll_never_moves_cursor() {
    let rows = 10;
    let mut m = FileSystemModel::new(bytes("/"));
    m.begin_fs_navigation(ActivePanel::Left, bytes("/"), None);
    let mut batch = Vec::new();
    for i in 0..100 {
        batch.push(file_entry("", &format!("f{:03}", i)));
    }
    m.pump_panel(ActivePanel::Left, PumpEvent::Batch(batch), rows);
    m.select_entry(50, rows);
    assert_eq!(m.left_panel.top_index, 41);
    m.on_scroll(3, rows);
    assert_eq!(m.left_panel.selected_index, 50);
    assert_eq!(m.left_panel.top_index, 44);
    // Scrolling far away is pulled back so the cursor stays visible.
    m.on_scroll(-100, rows);
    assert_eq!(m.left_panel.selected_index, 50);
    assert_eq!(m.left_panel.top_index, 41);
}

#[test]
fn out_of_range_selection_is_ignored() {
    let mut m = FileSystemModel::new(bytes("/d"));
    m.begin_fs_navigation(ActivePanel::Left, bytes("/d/sub"), None);
    let names0 = panel_names(&m, ActivePanel::Left);
    let r = m.select_entry(7, 10);
    assert!(r.is_none());
    assert_eq!(panel_names(&m, ActivePanel::Left), names0);
    assert_eq!(m.left_panel.selected_index, 0);
}

#[test]
fn selection_memory_round_trip() {
    let rows = 10;
    let mut m = FileSystemModel::new(bytes("/d"));

    // Enter /d/sub and stream its listing: ["..", "X", "a", "b"].
    let sub_listing = read_fs_directory(
        b"/d/sub",
        &vec![raw("a", false), raw("X", false), raw("b", false)],
    );
    m.begin_fs_navigation(ActivePanel::Left, bytes("/d/sub"), None);
    stream_listing(&mut m, ActivePanel::Left, &sub_listing, rows);
    assert_eq!(
        panel_names(&m, ActivePanel::Left),
        vec![bytes(".."), bytes("X"), bytes("a"), bytes("b")]
    );

    // Highlight "X" and open it: a plain file, so the only effect is that
    // the selection is remembered for /d/sub.
    m.select_entry(1, rows);
    let r = m.open_selected();
    assert!(r.is_none());

    // Navigate to the parent and back into /d/sub.
    let parent_listing = read_fs_directory(b"/d", &vec![raw("sub", true)]);
    m.begin_fs_navigation(ActivePanel::Left, bytes("/d"), None);
    stream_listing(&mut m, ActivePanel::Left, &parent_listing, rows);
    m.begin_fs_navigation(ActivePanel::Left, bytes("/d/sub"), None);
    assert_eq!(m.left_panel.prefer_select_name, Some(bytes("X")));

    // Once streaming completes, the cursor points at "X" again.
    stream_listing(&mut m, ActivePanel::Left, &sub_listing, rows);
    assert_eq!(m.left_panel.selected_index, 1);
    assert_eq!(m.left_panel.entries[1].name, bytes("X"));
    assert_eq!(m.left_panel.prefer_select_name, None);
}

#[test]
fn opening_an_archive_enters_it_at_the_root() {
    let rows = 10;
    let mut m = FileSystemModel::new(bytes("/tmp"));
    let listing = read_fs_directory(b"/tmp", &vec![raw("a.zip", false), raw("notes.txt", false)]);
    m.begin_fs_navigation(ActivePanel::Left, bytes("/tmp"), None);
    stream_listing(&mut m, ActivePanel::Left, &listing, rows);
    assert_eq!(
        panel_names(&m, ActivePanel::Left),
        vec![bytes(".."), bytes("a.zip"), bytes("notes.txt")]
    );

    m.select_entry(1, rows);
    let r = m.open_selected();
    match r {
        Some(NavRequest::Zip { archive_path, cwd }) => {
            assert_eq!(archive_path, bytes("/tmp/a.zip"));
            assert_eq!(cwd, bytes(""));
        }
        _ => panic!("opening a zip file must start an archive enumeration"),
    }
    match &m.left_panel.mode {
        PanelMode::Zip { archive_path, cwd } => {
            assert_eq!(archive_path, &bytes("/tmp/a.zip"));
            assert_eq!(cwd, &bytes(""));
        }
        _ => panic!("the panel must be in archive mode"),
    }
    // Until the stream arrives the panel shows only the parent row, which
    // leads back out into /tmp.
    assert_eq!(panel_names(&m, ActivePanel::Left), vec![bytes("..")]);
    match &m.left_panel.entries[0].location {
        EntryLocation::Fs { path } => assert_eq!(path, &bytes("/tmp")),
        _ => panic!("the archive root's parent row leaves the archive"),
    }

    // Stream the archive listing in.
    let members = vec![bytes("src/main.txt"), bytes("readme.md")];
    let zip_listing = dual_pane::archive::read_zip_directory(b"/tmp/a.zip", b"", &members);
    stream_listing(&mut m, ActivePanel::Left, &zip_listing, rows);
    assert_eq!(
        panel_names(&m, ActivePanel::Left),
        vec![bytes(".."), bytes("src"), bytes("readme.md")]
    );
}

#[test]
fn opening_a_plain_file_is_terminal() {
    let rows = 10;
    let mut m = FileSystemModel::new(bytes("/d"));
    let listing = read_fs_directory(b"/d", &vec![raw("plain.bin", false)]);
    m.begin_fs_navigation(ActivePanel::Left, bytes("/d"), None);
    stream_listing(&mut m, ActivePanel::Left, &listing, rows);
    m.select_entry(1, rows);
    let names0 = panel_names(&m, ActivePanel::Left);
    assert!(m.open_selected().is_none());
    assert_eq!(panel_names(&m, ActivePanel::Left), names0);
}

#[test]
fn preview_fetch_and_apply() {
    let rows = 10;
    let mut m = FileSystemModel::new(bytes("/d"));
    let listing = read_fs_directory(
        b"/d",
        &vec![raw("t.txt", false), raw("i.png", false), raw("sub", true)],
    );
    m.begin_fs_navigation(ActivePanel::Left, bytes("/d"), None);
    stream_listing(&mut m, ActivePanel::Left, &listing, rows);
    // listing: ["..", "sub", "i.png", "t.txt"]

    // A text file asks for a read, and the bytes come back verbatim.
    m.select_entry(3, rows);
    match m.toggle_preview() {
        Some(PreviewFetch::Fs { path }) => assert_eq!(path, bytes("/d/t.txt")),
        _ => panic!("a plain file preview needs a filesystem read"),
    }
    m.apply_preview_bytes(Ok(bytes("hello world")));
    match &m.preview {
        Some(PreviewContent::Text(t)) => assert_eq!(t, &bytes("hello world")),
        _ => panic!("text bytes must be shown verbatim"),
    }

    // Toggling again closes the preview.
    assert!(m.toggle_preview().is_none());
    assert!(m.preview.is_none());

    // An image file needs no read: the payload is the image reference.
    m.select_entry(2, rows);
    assert!(m.toggle_preview().is_none());
    match &m.preview {
        Some(PreviewContent::Image(p)) => assert_eq!(p, &bytes("/d/i.png")),
        _ => panic!("an image preview holds the image path"),
    }

    // A directory clears the preview when the open preview follows it.
    let fetch = m.select_entry(1, rows);
    assert!(fetch.is_none());
    assert!(m.preview.is_none());

    // A failed read shows its message instead of propagating.
    m.select_entry(3, rows);
    m.toggle_preview();
    m.apply_preview_bytes(Err(bytes("Failed to read file: denied")));
    match &m.preview {
        Some(PreviewContent::Text(t)) => assert_eq!(t, &bytes("Failed to read file: denied")),
        _ => panic!("a failed read becomes preview text"),
    }
}

#[test]
fn copy_job_needs_filesystem_source_and_destination() {
    let rows = 10;
    let mut m = FileSystemModel::new(bytes("/dst"));
    let listing = read_fs_directory(b"/src", &vec![raw("f.bin", false)]);
    m.begin_fs_navigation(ActivePanel::Left, bytes("/src"), None);
    stream_listing(&mut m, ActivePanel::Left, &listing, rows);
    m.select_entry(1, rows);
    match m.enqueue_copy_selected() {
        Some(CopyJob { src, dst_dir }) => {
            assert_eq!(src, bytes("/src/f.bin"));
            assert_eq!(dst_dir, bytes("/dst"));
        }
        None => panic!("a filesystem file copies into the other panel's directory"),
    }

    // An archive-internal selection offers no copy.
    let members = vec![bytes("inner.txt")];
    let zl = dual_pane::archive::read_zip_directory(b"/src/a.zip", b"", &members);
    m.begin_zip_navigation(ActivePanel::Left, bytes("/src/a.zip"), bytes(""), None);
    stream_listing(&mut m, ActivePanel::Left, &zl, rows);
    m.select_entry(1, rows);
    assert!(m.enqueue_copy_selected().is_none());
}

#[test]
fn switch_panel_toggles_focus_only() {
    let mut m = FileSystemModel::new(bytes("/d"));
    assert_eq!(m.active_panel, ActivePanel::Left);
    m.switch_panel();
    assert_eq!(m.active_panel, ActivePanel::Right);
    m.switch_panel();
    assert_eq!(m.active_panel, ActivePanel::Left);
}

#[test]
fn theme_toggle_and_picker() {
    let mut m = FileSystemModel::new(bytes("/d"));
    assert_eq!(m.theme.kind, ThemeKind::Dark);
    m.switch_theme();
    assert_eq!(m.theme.kind, ThemeKind::Light);

    // The default names are the built-in pair.
    let names = m.theme_names();
    assert_eq!(names, vec![bytes("Dark"), bytes("Light")]);

    m.theme.set_external(vec![bytes("red"), bytes("blue")]);
    assert_eq!(m.theme.selected_external, Some(0));
    assert_eq!(m.theme_names(), vec![bytes("red"), bytes("blue")]);

    m.open_theme_picker();
    assert!(m.theme_picker_open);
    assert_eq!(m.theme_picker_selected, Some(0));
    m.select_next_theme();
    assert_eq!(m.theme_picker_selected, Some(1));
    m.select_next_theme();
    assert_eq!(m.theme_picker_selected, Some(0));
    m.select_prev_theme();
    assert_eq!(m.theme_picker_selected, Some(1));
    m.apply_selected_theme();
    assert!(!m.theme_picker_open);
    assert_eq!(m.theme.selected_external, Some(1));

    // With externals loaded, toggling cycles through them.
    m.switch_theme();
    assert_eq!(m.theme.selected_external, Some(0));
    m.close_theme_picker();
    assert!(!m.theme_picker_open);
}

#[test]
fn selection_memory_replaces_on_equal_keys() {
    let mut mem = SelectionMemory::new();
    assert_eq!(mem.lookup(b"/d", b""), None);
    mem.insert(bytes("/d"), bytes(""), bytes("one"));
    assert_eq!(mem.lookup(b"/d", b""), Some(bytes("one")));
    mem.insert(bytes("/d"), bytes(""), bytes("two"));
    assert_eq!(mem.lookup(b"/d", b""), Some(bytes("two")));
    // A different secondary key is a different location.
    mem.insert(bytes("/d"), bytes("inner"), bytes("three"));
    assert_eq!(mem.lookup(b"/d", b""), Some(bytes("two")));
    assert_eq!(mem.lookup(b"/d", b"inner"), Some(bytes("three")));
}

#[test]
fn chunker_emits_bounded_batches_in_order() {
    let mut c = Chunker::new(2);
    assert!(c.push(file_entry("", "a")).is_none());
    let b1 = c.push(file_entry("", "b")).expect("the bound is reached");
    assert_eq!(b1.len(), 2);
    assert_eq!(b1[0].name, bytes("a"));
    assert_eq!(b1[1].name, bytes("b"));
    assert!(c.push(file_entry("", "c")).is_none());
    let b2 = c.finish().expect("one entry is still buffered");
    assert_eq!(b2.len(), 1);
    assert_eq!(b2[0].name, bytes("c"));
    assert!(c.finish().is_none());
}

#[test]
fn plan_batches_carves_the_body() {
    let listing = read_fs_directory(
        b"/d",
        &vec![raw("a", false), raw("b", false), raw("c", false), raw("d", false)],
    );
    // listing: ["..", "a", "b", "c", "d"]; the parent row is not streamed.
    let batches = plan_batches(&listing, 2, 2);
    assert_eq!(batches.len(), 2);
    assert_eq!(batches[0].len(), 2);
    assert_eq!(batches[1].len(), 2);
    assert_eq!(batches[0][0].name, bytes("a"));
    assert_eq!(batches[0][1].name, bytes("b"));
    assert_eq!(batches[1][0].name, bytes("c"));
    assert_eq!(batches[1][1].name, bytes("d"));
}

#[test]
fn navigation_to_rootless_locations_has_no_parent_row() {
    let mut m = FileSystemModel::new(bytes("/"));
    // The filesystem root has no parent: the panel starts empty.
    m.begin_fs_navigation(ActivePanel::Left, bytes("/"), None);
    assert!(m.left_panel.entries.is_empty());
    // A relative archive path without a separator has no containing
    // directory either.
    m.begin_zip_navigation(ActivePanel::Left, bytes("a.zip"), bytes(""), None);
    assert!(m.left_panel.entries.is_empty());
    // An inner directory always has a parent row, back into the archive.
    m.begin_zip_navigation(ActivePanel::Left, bytes("a.zip"), bytes("src"), None);
    assert_eq!(panel_names(&m, ActivePanel::Left), vec![bytes("..")]);
}

#[test]
fn visible_range_clamps_to_listing() {
    let rows = 10;
    let mut m = FileSystemModel::new(bytes("/"));
    m.begin_fs_navigation(ActivePanel::Left, bytes("/"), None);
    let mut batch = Vec::new();
    for i in 0..25 {
        batch.push(file_entry("", &format!("f{:02}", i)));
    }
    m.pump_panel(ActivePanel::Left, PumpEvent::Batch(batch), rows);
    assert_eq!(m.left_panel.visible_range(rows), (0, 10));
    m.select_entry(24, rows);
    assert_eq!(m.left_panel.visible_range(rows), (15, 25));
}

#[test]
fn display_path_shows_archive_marker() {
    let mut m = FileSystemModel::new(bytes("/d"));
    assert_eq!(m.left_panel.display_path(), bytes("/d"));
    m.begin_zip_navigation(ActivePanel::Left, bytes("/tmp/a.zip"), bytes("src"), None);
    assert_eq!(m.left_panel.display_path(), bytes("/tmp/a.zip::zip:/src"));
}
