//! The navigation/command engine: two panels, active-panel focus, selection
//! memory, preview state and every user command.
//!
//! The engine is driven by discrete calls and never blocks: reads are done by
//! the shell, which hands listings and byte prefixes in as values and drains
//! the per-panel batch queues through `pump_panel`.

use vstd::prelude::*;
use crate::entry::{DirEntry, EntryView, EntryLocation, LocationView, ActivePanel, PanelMode, PanelModeView};
use crate::listing::entries_view;
use crate::memory::SelectionMemory;
use crate::panel::PanelState;
use crate::paths::{
    fs_parent,
    fs_parent_spec,
    fs_basename,
    fs_basename_spec,
    zip_last_segment,
    zip_last_segment_spec,
    is_zip_path,
    is_zip_path_spec,
    is_image_path,
    is_image_path_spec,
};
use crate::preview::rendered_preview;
use crate::theme::Theme;
use crate::window::{clamped_sel, normalized_top, max_top};
use crate::bytes::{copy_bytes, bytes_eq};
use crate::archive::dotdot_zip_entry;
use crate::listing::dotdot_fs_entry;
use crate::entry::{dotdot, dotdot_name};

verus! {

/// The preview payload: rendered text bytes, or a reference to an image file.
pub enum PreviewContent {
    Text(Vec<u8>),
    Image(Vec<u8>),
}

/// Mathematical value of a `PreviewContent`.
pub ghost enum PreviewContentView {
    Text(Seq<u8>),
    Image(Seq<u8>),
}

impl View for PreviewContent {
    type V = PreviewContentView;

    open spec fn view(&self) -> PreviewContentView {
        match self {
            PreviewContent::Text(t) => PreviewContentView::Text(t@),
            PreviewContent::Image(p) => PreviewContentView::Image(p@),
        }
    }
}

/// Mathematical value of the optional preview payload.
pub open spec fn preview_view(o: Option<PreviewContent>) -> Option<PreviewContentView> {
    match o {
        Some(p) => Some(p@),
        None => None,
    }
}

/// A read the shell must perform to fill the preview.
pub enum PreviewFetch {
    Fs { path: Vec<u8> },
    Zip { archive_path: Vec<u8>, inner_path: Vec<u8> },
}

/// Mathematical value of a `PreviewFetch`.
pub ghost enum PreviewFetchView {
    Fs { path: Seq<u8> },
    Zip { archive_path: Seq<u8>, inner_path: Seq<u8> },
}

impl View for PreviewFetch {
    type V = PreviewFetchView;

    open spec fn view(&self) -> PreviewFetchView {
        match self {
            PreviewFetch::Fs { path } => PreviewFetchView::Fs { path: path@ },
            PreviewFetch::Zip { archive_path, inner_path } => PreviewFetchView::Zip {
                archive_path: archive_path@,
                inner_path: inner_path@,
            },
        }
    }
}

/// Mathematical value of the optional fetch request.
pub open spec fn fetch_view(o: Option<PreviewFetch>) -> Option<PreviewFetchView> {
    match o {
        Some(f) => Some(f@),
        None => None,
    }
}

/// An enumeration the shell must start for a freshly navigated panel.
pub enum NavRequest {
    Fs { path: Vec<u8> },
    Zip { archive_path: Vec<u8>, cwd: Vec<u8> },
}

/// Mathematical value of a `NavRequest`.
pub ghost enum NavRequestView {
    Fs { path: Seq<u8> },
    Zip { archive_path: Seq<u8>, cwd: Seq<u8> },
}

impl View for NavRequest {
    type V = NavRequestView;

    open spec fn view(&self) -> NavRequestView {
        match self {
            NavRequest::Fs { path } => NavRequestView::Fs { path: path@ },
            NavRequest::Zip { archive_path, cwd } => NavRequestView::Zip {
                archive_path: archive_path@,
                cwd: cwd@,
            },
        }
    }
}

/// Mathematical value of the optional enumeration request.
pub open spec fn nav_view(o: Option<NavRequest>) -> Option<NavRequestView> {
    match o {
        Some(f) => Some(f@),
        None => None,
    }
}

/// What one non-blocking receive on a panel's batch queue yielded.
pub enum PumpEvent {
    /// A batch of entries arrived.
    Batch(Vec<DirEntry>),
    /// Nothing yet; try again next tick.
    Empty,
    /// The enumeration is complete and the queue is gone.
    Closed,
}

/// One job for the copy worker.
pub struct CopyJob {
    pub src: Vec<u8>,
    pub dst_dir: Vec<u8>,
}

/// Position of the first entry with this name, as a recursive definition.
pub open spec fn find_name(es: Seq<EntryView>, name: Seq<u8>) -> Option<int>
    decreases es.len(),
{
    if es.len() == 0 {
        None
    } else if es[0].name == name {
        Some(0int)
    } else {
        match find_name(es.drop_first(), name) {
            None => None,
            Some(i) => Some(i + 1),
        }
    }
}

/// Where an index carries the first-match property, `find_name` finds it.
pub proof fn lemma_find_name_is(es: Seq<EntryView>, name: Seq<u8>, i: int)
    requires
        0 <= i < es.len(),
        es[i].name == name,
        forall|k: int| 0 <= k < i ==> (#[trigger] es[k]).name != name,
    ensures
        find_name(es, name) == Some(i),
    decreases es.len(),
{
    if i > 0 {
        lemma_find_name_is(es.drop_first(), name, i - 1);
    }
}

/// Where no entry has the name, `find_name` finds nothing.
pub proof fn lemma_find_name_none(es: Seq<EntryView>, name: Seq<u8>)
    requires
        forall|k: int| 0 <= k < es.len() ==> (#[trigger] es[k]).name != name,
    ensures
        find_name(es, name) is None,
    decreases es.len(),
{
    if es.len() > 0 {
        lemma_find_name_none(es.drop_first(), name);
    }
}

/// Position of the first entry with this name, as executable code.
pub fn find_entry_by_name(entries: &Vec<DirEntry>, name: &[u8]) -> (r: Option<usize>)
    ensures
        ({
            let ev = entries_view(entries@);
            match r {
                Some(i) => find_name(ev, name@) == Some(i as int),
                None => find_name(ev, name@) is None,
            }
        }),
{
    let n = entries.len();
    let mut i: usize = 0;
    while i < n
        invariant
            i <= n,
            n == entries@.len(),
            forall|k: int|
                0 <= k < i ==> (#[trigger] entries_view(entries@)[k]).name != name@,
        decreases n - i,
    {
        if bytes_eq(entries[i].name.as_slice(), name) {
            proof {
                lemma_find_name_is(entries_view(entries@), name@, i as int);
            }
            return Some(i);
        }
        proof {
            assert(entries_view(entries@)[i as int].name == entries@[i as int].name@);
        }
        i += 1;
    }
    proof {
        lemma_find_name_none(entries_view(entries@), name@);
    }
    None
}

/// The whole browser: two panels, the focus, the preview, the two selection
/// memories and the theme state.  Created once at startup and mutated only
/// through its command methods.
pub struct FileSystemModel {
    pub left_panel: PanelState,
    pub right_panel: PanelState,
    pub active_panel: ActivePanel,
    pub preview: Option<PreviewContent>,
    /// Last selected name per filesystem directory (secondary key empty).
    pub fs_last_selected_name: SelectionMemory,
    /// Last selected name per archive location (archive path, inner path).
    pub zip_last_selected_name: SelectionMemory,
    pub theme: Theme,
    pub theme_picker_open: bool,
    pub theme_picker_selected: Option<usize>,
}

/// The panel a side names, as a spec value.
pub open spec fn spec_panel(m: &FileSystemModel, which: ActivePanel) -> PanelState {
    match which {
        ActivePanel::Left => m.left_panel,
        ActivePanel::Right => m.right_panel,
    }
}

/// The side not named.
pub open spec fn other_side(which: ActivePanel) -> ActivePanel {
    match which {
        ActivePanel::Left => ActivePanel::Right,
        ActivePanel::Right => ActivePanel::Left,
    }
}

/// The view of the entry under the cursor.
pub open spec fn sel_entry(p: &PanelState) -> EntryView {
    p.entries@[p.selected_index as int]@
}

impl FileSystemModel {
    /// Both panels and the theme are well formed, and the picker cursor is
    /// bounded by the loaded theme list.
    pub open spec fn wf(&self) -> bool {
        &&& self.left_panel.basic_wf()
        &&& self.right_panel.basic_wf()
        &&& self.theme.wf()
        &&& (match self.theme_picker_selected {
            Some(i) => i <= self.theme.external@.len(),
            None => true,
        })
    }

    /// A fresh model: both panels aimed at the starting directory, focus on
    /// the left, no preview, empty memories, dark theme, picker closed.
    pub fn new(start_path: Vec<u8>) -> (r: Self)
        ensures
            r.wf(),
            r.left_panel.current_path@ == start_path@,
            r.right_panel.current_path@ == start_path@,
            r.left_panel.mode@ == PanelModeView::Fs,
            r.right_panel.mode@ == PanelModeView::Fs,
            r.left_panel.entries@.len() == 0,
            r.right_panel.entries@.len() == 0,
            r.active_panel == ActivePanel::Left,
            r.preview is None,
            forall|a: Seq<u8>, b: Seq<u8>| r.fs_last_selected_name.spec_lookup(a, b) is None,
            forall|a: Seq<u8>, b: Seq<u8>| r.zip_last_selected_name.spec_lookup(a, b) is None,
            r.theme_picker_open == false,
            r.theme_picker_selected is None,
    {
        let right_path = copy_bytes(start_path.as_slice());
        FileSystemModel {
            left_panel: PanelState::new_fs(start_path),
            right_panel: PanelState::new_fs(right_path),
            active_panel: ActivePanel::Left,
            preview: None,
            fs_last_selected_name: SelectionMemory::new(),
            zip_last_selected_name: SelectionMemory::new(),
            theme: Theme::dark(),
            theme_picker_open: false,
            theme_picker_selected: None,
        }
    }

    /// The panel a side names.
    pub fn panel(&self, which: ActivePanel) -> (r: &PanelState)
        ensures
            *r == spec_panel(self, which),
    {
        match which {
            ActivePanel::Left => &self.left_panel,
            ActivePanel::Right => &self.right_panel,
        }
    }

    /// The focused panel.
    pub fn get_active_panel(&self) -> (r: &PanelState)
        ensures
            *r == spec_panel(self, self.active_panel),
    {
        self.panel(self.active_panel)
    }

    /// Moves the focus to the other panel; nothing else changes.
    pub fn switch_panel(&mut self)
        ensures
            final(self).active_panel == other_side(old(self).active_panel),
            final(self).left_panel == old(self).left_panel,
            final(self).right_panel == old(self).right_panel,
            final(self).preview == old(self).preview,
            final(self).fs_last_selected_name == old(self).fs_last_selected_name,
            final(self).zip_last_selected_name == old(self).zip_last_selected_name,
            final(self).theme == old(self).theme,
            final(self).theme_picker_open == old(self).theme_picker_open,
            final(self).theme_picker_selected == old(self).theme_picker_selected,
    {
        self.active_panel = match self.active_panel {
            ActivePanel::Left => ActivePanel::Right,
            ActivePanel::Right => ActivePanel::Left,
        };
    }

    /// Drops the preview payload.
    pub fn close_preview(&mut self)
        ensures
            final(self).preview is None,
            final(self).left_panel == old(self).left_panel,
            final(self).right_panel == old(self).right_panel,
            final(self).active_panel == old(self).active_panel,
            final(self).fs_last_selected_name == old(self).fs_last_selected_name,
            final(self).zip_last_selected_name == old(self).zip_last_selected_name,
            final(self).theme == old(self).theme,
            final(self).theme_picker_open == old(self).theme_picker_open,
            final(self).theme_picker_selected == old(self).theme_picker_selected,
    {
        self.preview = None;
    }

    /// Fills the preview from the bytes the shell read, or from the error
    /// text it produced: text is shown verbatim, binary data as a hex dump,
    /// and a failed read shows its message instead of propagating.
    pub fn apply_preview_bytes(&mut self, outcome: Result<Vec<u8>, Vec<u8>>)
        ensures
            preview_view(final(self).preview) == Some(
                PreviewContentView::Text(
                    match outcome {
                        Ok(b) => rendered_preview(b@),
                        Err(m) => m@,
                    },
                ),
            ),
            final(self).left_panel == old(self).left_panel,
            final(self).right_panel == old(self).right_panel,
            final(self).active_panel == old(self).active_panel,
            final(self).fs_last_selected_name == old(self).fs_last_selected_name,
            final(self).zip_last_selected_name == old(self).zip_last_selected_name,
            final(self).theme == old(self).theme,
            final(self).theme_picker_open == old(self).theme_picker_open,
            final(self).theme_picker_selected == old(self).theme_picker_selected,
    {
        match outcome {
            Ok(bytes) => {
                let rendered = crate::preview::preview_of_bytes(bytes);
                self.preview = Some(PreviewContent::Text(rendered));
            },
            Err(msg) => {
                self.preview = Some(PreviewContent::Text(msg));
            },
        }
    }

    /// Recomputes the preview for the cursor of the focused panel: cleared
    /// for a directory or an empty panel, an image reference for an image
    /// file, otherwise a fetch request for the shell.
    pub fn update_preview_for_current_selection(&mut self) -> (r: Option<PreviewFetch>)
        requires
            old(self).wf(),
        ensures
            final(self).left_panel == old(self).left_panel,
            final(self).right_panel == old(self).right_panel,
            final(self).active_panel == old(self).active_panel,
            final(self).fs_last_selected_name == old(self).fs_last_selected_name,
            final(self).zip_last_selected_name == old(self).zip_last_selected_name,
            final(self).theme == old(self).theme,
            final(self).theme_picker_open == old(self).theme_picker_open,
            final(self).theme_picker_selected == old(self).theme_picker_selected,
            final(self).wf(),
            ({
                let p = spec_panel(old(self), old(self).active_panel);
                if p.len() == 0 || sel_entry(&p).is_dir {
                    final(self).preview is None && r is None
                } else {
                    match sel_entry(&p).location {
                        LocationView::Fs { path } => if is_image_path_spec(path) {
                            preview_view(final(self).preview) == Some(
                                PreviewContentView::Image(path),
                            ) && r is None
                        } else {
                            final(self).preview == old(self).preview && fetch_view(r) == Some(
                                PreviewFetchView::Fs { path },
                            )
                        },
                        LocationView::Zip { archive_path, inner_path } => final(self).preview
                            == old(self).preview && fetch_view(r) == Some(
                            PreviewFetchView::Zip { archive_path, inner_path },
                        ),
                    }
                }
            }),
    {
        let is_empty = self.get_active_panel().entries.len() == 0;
        if is_empty {
            self.preview = None;
            return None;
        }
        let (is_dir, location) = {
            let p = self.get_active_panel();
            let e = &p.entries[p.selected_index];
            (e.is_dir, crate::entry::copy_location(&e.location))
        };
        if is_dir {
            self.preview = None;
            return None;
        }
        match location {
            EntryLocation::Fs { path } => {
                if is_image_path(path.as_slice()) {
                    self.preview = Some(PreviewContent::Image(path));
                    None
                } else {
                    Some(PreviewFetch::Fs { path })
                }
            },
            EntryLocation::Zip { archive_path, inner_path } => {
                Some(PreviewFetch::Zip { archive_path, inner_path })
            },
        }
    }

    /// Opens the preview for the current selection, or closes an open one.
    pub fn toggle_preview(&mut self) -> (r: Option<PreviewFetch>)
        requires
            old(self).wf(),
        ensures
            final(self).left_panel == old(self).left_panel,
            final(self).right_panel == old(self).right_panel,
            final(self).active_panel == old(self).active_panel,
            final(self).fs_last_selected_name == old(self).fs_last_selected_name,
            final(self).zip_last_selected_name == old(self).zip_last_selected_name,
            final(self).theme == old(self).theme,
            final(self).theme_picker_open == old(self).theme_picker_open,
            final(self).theme_picker_selected == old(self).theme_picker_selected,
            final(self).wf(),
            old(self).preview is Some ==> final(self).preview is None && r is None,
            old(self).preview is None ==> ({
                let p = spec_panel(old(self), old(self).active_panel);
                if p.len() == 0 || sel_entry(&p).is_dir {
                    final(self).preview is None && r is None
                } else {
                    match sel_entry(&p).location {
                        LocationView::Fs { path } => if is_image_path_spec(path) {
                            preview_view(final(self).preview) == Some(
                                PreviewContentView::Image(path),
                            ) && r is None
                        } else {
                            final(self).preview is None && fetch_view(r) == Some(
                                PreviewFetchView::Fs { path },
                            )
                        },
                        LocationView::Zip { archive_path, inner_path } => final(self).preview
                            is None && fetch_view(r) == Some(
                            PreviewFetchView::Zip { archive_path, inner_path },
                        ),
                    }
                }
            }),
    {
        if self.preview.is_some() {
            self.preview = None;
            return None;
        }
        self.update_preview_for_current_selection()
    }

    /// Sets the cursor of the focused panel when the index is in range and
    /// keeps it visible; an out-of-range index is ignored.  Returns the
    /// fetch the shell must do when an open preview follows the cursor.
    pub fn select_entry(&mut self, index: usize, visible_rows: usize) -> (r: Option<PreviewFetch>)
        requires
            visible_rows >= 1,
            old(self).wf(),
        ensures
            final(self).wf(),
            final(self).active_panel == old(self).active_panel,
            final(self).fs_last_selected_name == old(self).fs_last_selected_name,
            final(self).zip_last_selected_name == old(self).zip_last_selected_name,
            final(self).theme == old(self).theme,
            final(self).theme_picker_open == old(self).theme_picker_open,
            final(self).theme_picker_selected == old(self).theme_picker_selected,
            spec_panel(final(self), other_side(old(self).active_panel)) == spec_panel(
                old(self),
                other_side(old(self).active_panel),
            ),
            ({
                let p = spec_panel(old(self), old(self).active_panel);
                let q = spec_panel(final(self), old(self).active_panel);
                if (index as int) < p.len() {
                    &&& q.entries == p.entries
                    &&& q.current_path == p.current_path
                    &&& q.mode == p.mode
                    &&& q.streaming == p.streaming
                    &&& q.prefer_select_name == p.prefer_select_name
                    &&& q.selected_index == index
                    &&& q.top_index as int == normalized_top(
                        p.len(),
                        index as int,
                        p.top_index as int,
                        visible_rows as int,
                    )
                    &&& q.window_ok(visible_rows as int)
                } else {
                    q == p && final(self).preview == old(self).preview && r is None
                }
            }),
            ({
                let p = spec_panel(old(self), old(self).active_panel);
                ((index as int) < p.len() && old(self).preview is None) ==> (final(self).preview
                    is None && r is None)
            }),
    {
        let which = self.active_panel;
        let in_range = index < self.get_active_panel().entries.len();
        if !in_range {
            return None;
        }
        match which {
            ActivePanel::Left => {
                self.left_panel.selected_index = index;
                self.left_panel.normalize_window(visible_rows);
            },
            ActivePanel::Right => {
                self.right_panel.selected_index = index;
                self.right_panel.normalize_window(visible_rows);
            },
        }
        if self.preview.is_some() {
            self.update_preview_for_current_selection()
        } else {
            None
        }
    }

    /// Moves the cursor one row down when a next row exists.
    pub fn move_selection_next(&mut self, visible_rows: usize) -> (r: Option<PreviewFetch>)
        requires
            visible_rows >= 1,
            old(self).wf(),
        ensures
            final(self).wf(),
            final(self).active_panel == old(self).active_panel,
            final(self).fs_last_selected_name == old(self).fs_last_selected_name,
            final(self).zip_last_selected_name == old(self).zip_last_selected_name,
            final(self).theme == old(self).theme,
            final(self).theme_picker_open == old(self).theme_picker_open,
            final(self).theme_picker_selected == old(self).theme_picker_selected,
            spec_panel(final(self), other_side(old(self).active_panel)) == spec_panel(
                old(self),
                other_side(old(self).active_panel),
            ),
            ({
                let p = spec_panel(old(self), old(self).active_panel);
                let q = spec_panel(final(self), old(self).active_panel);
                if p.selected_index as int + 1 < p.len() {
                    &&& q.entries == p.entries
                    &&& q.selected_index == p.selected_index + 1
                    &&& q.top_index as int == normalized_top(
                        p.len(),
                        p.selected_index as int + 1,
                        p.top_index as int,
                        visible_rows as int,
                    )
                    &&& q.window_ok(visible_rows as int)
                } else {
                    q == p && final(self).preview == old(self).preview && r is None
                }
            }),
    {
        let p = self.get_active_panel();
        let sel = p.selected_index;
        let len = p.entries.len();
        if len > 0 && sel + 1 < len {
            self.select_entry(sel + 1, visible_rows)
        } else {
            None
        }
    }

    /// Moves the cursor one row up when a previous row exists.
    pub fn move_selection_prev(&mut self, visible_rows: usize) -> (r: Option<PreviewFetch>)
        requires
            visible_rows >= 1,
            old(self).wf(),
        ensures
            final(self).wf(),
            final(self).active_panel == old(self).active_panel,
            final(self).fs_last_selected_name == old(self).fs_last_selected_name,
            final(self).zip_last_selected_name == old(self).zip_last_selected_name,
            final(self).theme == old(self).theme,
            final(self).theme_picker_open == old(self).theme_picker_open,
            final(self).theme_picker_selected == old(self).theme_picker_selected,
            spec_panel(final(self), other_side(old(self).active_panel)) == spec_panel(
                old(self),
                other_side(old(self).active_panel),
            ),
            ({
                let p = spec_panel(old(self), old(self).active_panel);
                let q = spec_panel(final(self), old(self).active_panel);
                if p.selected_index > 0 {
                    &&& q.entries == p.entries
                    &&& q.selected_index == p.selected_index - 1
                    &&& q.top_index as int == normalized_top(
                        p.len(),
                        p.selected_index as int - 1,
                        p.top_index as int,
                        visible_rows as int,
                    )
                    &&& q.window_ok(visible_rows as int)
                } else {
                    q == p && final(self).preview == old(self).preview && r is None
                }
            }),
    {
        let p = self.get_active_panel();
        let sel = p.selected_index;
        if sel > 0 {
            self.select_entry(sel - 1, visible_rows)
        } else {
            None
        }
    }

    /// Moves the cursor one page down, clamped to the last entry.
    pub fn page_down(&mut self, visible_rows: usize) -> (r: Option<PreviewFetch>)
        requires
            visible_rows >= 1,
            old(self).wf(),
        ensures
            final(self).wf(),
            final(self).active_panel == old(self).active_panel,
            final(self).fs_last_selected_name == old(self).fs_last_selected_name,
            final(self).zip_last_selected_name == old(self).zip_last_selected_name,
            final(self).theme == old(self).theme,
            final(self).theme_picker_open == old(self).theme_picker_open,
            final(self).theme_picker_selected == old(self).theme_picker_selected,
            spec_panel(final(self), other_side(old(self).active_panel)) == spec_panel(
                old(self),
                other_side(old(self).active_panel),
            ),
            ({
                let p = spec_panel(old(self), old(self).active_panel);
                let q = spec_panel(final(self), old(self).active_panel);
                if p.len() > 0 {
                    let target: int = if p.selected_index + visible_rows >= p.len() {
                        p.len() - 1
                    } else {
                        p.selected_index + visible_rows
                    };
                    &&& q.entries == p.entries
                    &&& q.selected_index as int == target
                    &&& q.top_index as int == normalized_top(
                        p.len(),
                        target,
                        p.top_index as int,
                        visible_rows as int,
                    )
                    &&& q.window_ok(visible_rows as int)
                } else {
                    q == p && final(self).preview == old(self).preview && r is None
                }
            }),
    {
        let p = self.get_active_panel();
        let sel = p.selected_index;
        let len = p.entries.len();
        let mut new_index = if visible_rows > usize::MAX - sel {
            usize::MAX
        } else {
            sel + visible_rows
        };
        if len > 0 && new_index >= len {
            new_index = len - 1;
        }
        self.select_entry(new_index, visible_rows)
    }

    /// Moves the cursor one page up, clamped to the first entry.
    pub fn page_up(&mut self, visible_rows: usize) -> (r: Option<PreviewFetch>)
        requires
            visible_rows >= 1,
            old(self).wf(),
        ensures
            final(self).wf(),
            final(self).active_panel == old(self).active_panel,
            final(self).fs_last_selected_name == old(self).fs_last_selected_name,
            final(self).zip_last_selected_name == old(self).zip_last_selected_name,
            final(self).theme == old(self).theme,
            final(self).theme_picker_open == old(self).theme_picker_open,
            final(self).theme_picker_selected == old(self).theme_picker_selected,
            spec_panel(final(self), other_side(old(self).active_panel)) == spec_panel(
                old(self),
                other_side(old(self).active_panel),
            ),
            ({
                let p = spec_panel(old(self), old(self).active_panel);
                let q = spec_panel(final(self), old(self).active_panel);
                if p.len() > 0 {
                    let target: int = if p.selected_index >= visible_rows {
                        p.selected_index - visible_rows
                    } else {
                        0int
                    };
                    &&& q.entries == p.entries
                    &&& q.selected_index as int == target
                    &&& q.top_index as int == normalized_top(
                        p.len(),
                        target,
                        p.top_index as int,
                        visible_rows as int,
                    )
                    &&& q.window_ok(visible_rows as int)
                } else {
                    q == p && final(self).preview == old(self).preview && r is None
                }
            }),
    {
        let p = self.get_active_panel();
        let sel = p.selected_index;
        let new_index = if sel >= visible_rows {
            sel - visible_rows
        } else {
            0
        };
        self.select_entry(new_index, visible_rows)
    }

    /// Scrolls the focused panel's window by a row delta.  The cursor never
    /// moves; the window is clamped and, where the cursor would leave it,
    /// pulled back over the cursor.
    pub fn on_scroll(&mut self, delta_rows: i64, visible_rows: usize)
        requires
            visible_rows >= 1,
            delta_rows > i64::MIN,
            old(self).wf(),
        ensures
            final(self).wf(),
            final(self).active_panel == old(self).active_panel,
            final(self).preview == old(self).preview,
            final(self).fs_last_selected_name == old(self).fs_last_selected_name,
            final(self).zip_last_selected_name == old(self).zip_last_selected_name,
            final(self).theme == old(self).theme,
            final(self).theme_picker_open == old(self).theme_picker_open,
            final(self).theme_picker_selected == old(self).theme_picker_selected,
            spec_panel(final(self), other_side(old(self).active_panel)) == spec_panel(
                old(self),
                other_side(old(self).active_panel),
            ),
            ({
                let p = spec_panel(old(self), old(self).active_panel);
                let q = spec_panel(final(self), old(self).active_panel);
                let mt = max_top(p.len(), visible_rows as int);
                &&& q.entries == p.entries
                &&& q.current_path == p.current_path
                &&& q.mode == p.mode
                &&& q.streaming == p.streaming
                &&& q.prefer_select_name == p.prefer_select_name
                &&& q.selected_index == p.selected_index
                &&& q.top_index as int == normalized_top(
                    p.len(),
                    p.selected_index as int,
                    crate::window::scroll_top_spec(p.top_index as int, delta_rows as int, mt),
                    visible_rows as int,
                )
                &&& q.window_ok(visible_rows as int)
            }),
    {
        let which = self.active_panel;
        match which {
            ActivePanel::Left => {
                scroll_one(&mut self.left_panel, delta_rows, visible_rows);
            },
            ActivePanel::Right => {
                scroll_one(&mut self.right_panel, delta_rows, visible_rows);
            },
        }
    }

    /// Drains one receive's worth of a panel's batch queue: appends a batch
    /// in arrival order, restores a pending preferred selection when its
    /// name has appeared, drops the queue when the stream has closed, and
    /// does nothing at all when no queue exists or nothing arrived.
    pub fn pump_panel(&mut self, which: ActivePanel, event: PumpEvent, visible_rows: usize)
        requires
            visible_rows >= 1,
            old(self).wf(),
        ensures
            final(self).wf(),
            final(self).active_panel == old(self).active_panel,
            final(self).preview == old(self).preview,
            final(self).fs_last_selected_name == old(self).fs_last_selected_name,
            final(self).zip_last_selected_name == old(self).zip_last_selected_name,
            final(self).theme == old(self).theme,
            final(self).theme_picker_open == old(self).theme_picker_open,
            final(self).theme_picker_selected == old(self).theme_picker_selected,
            spec_panel(final(self), other_side(which)) == spec_panel(old(self), other_side(which)),
            pump_effect(
                spec_panel(old(self), which),
                spec_panel(final(self), which),
                &event,
                visible_rows as int,
            ),
    {
        match which {
            ActivePanel::Left => {
                pump_one(&mut self.left_panel, event, visible_rows);
            },
            ActivePanel::Right => {
                pump_one(&mut self.right_panel, event, visible_rows);
            },
        }
    }

    /// Sets the cursor of a panel to the first entry with the given name, if
    /// one exists; the scroll window is left alone.
    pub fn select_entry_by_name(&mut self, which: ActivePanel, name: &[u8])
        requires
            old(self).wf(),
        ensures
            final(self).wf(),
            final(self).active_panel == old(self).active_panel,
            final(self).preview == old(self).preview,
            final(self).fs_last_selected_name == old(self).fs_last_selected_name,
            final(self).zip_last_selected_name == old(self).zip_last_selected_name,
            final(self).theme == old(self).theme,
            final(self).theme_picker_open == old(self).theme_picker_open,
            final(self).theme_picker_selected == old(self).theme_picker_selected,
            spec_panel(final(self), other_side(which)) == spec_panel(old(self), other_side(which)),
            ({
                let p = spec_panel(old(self), which);
                let q = spec_panel(final(self), which);
                &&& q.entries == p.entries
                &&& q.current_path == p.current_path
                &&& q.mode == p.mode
                &&& q.streaming == p.streaming
                &&& q.prefer_select_name == p.prefer_select_name
                &&& q.top_index == p.top_index
                &&& q.selected_index as int == (match find_name(entries_view(p.entries@), name@) {
                    Some(i) => i,
                    None => p.selected_index as int,
                })
            }),
    {
        let found = find_entry_by_name(&self.panel(which).entries, name);
        if let Some(idx) = found {
            proof {
                lemma_find_name_bound(entries_view(spec_panel(self, which).entries@), name@);
            }
            match which {
                ActivePanel::Left => {
                    self.left_panel.selected_index = idx;
                },
                ActivePanel::Right => {
                    self.right_panel.selected_index = idx;
                },
            }
        }
    }
}

/// The state of a panel on which a filesystem navigation has just begun: the
/// placeholder parent row alone, cursor and window reset, the batch queue
/// pending, and the cursor-restore request set.
pub open spec fn fs_nav_state(q: PanelState, path: Seq<u8>, remembered: Option<Seq<u8>>) -> bool {
    &&& q.current_path@ == path
    &&& q.mode@ == PanelModeView::Fs
    &&& entries_view(q.entries@) == (match fs_parent_spec(path) {
        Some(par) => seq![dotdot_fs_entry(par)],
        None => Seq::<EntryView>::empty(),
    })
    &&& q.selected_index == 0
    &&& q.top_index == 0
    &&& q.streaming == true
    &&& q.prefer_select_name.deep_view() == remembered
}

/// The state of a panel on which an archive navigation has just begun.
pub open spec fn zip_nav_state(
    q: PanelState,
    archive: Seq<u8>,
    cwd: Seq<u8>,
    remembered: Option<Seq<u8>>,
) -> bool {
    &&& q.current_path@ == archive
    &&& q.mode@ == (PanelModeView::Zip { archive_path: archive, cwd })
    &&& entries_view(q.entries@) == (if cwd.len() > 0 {
        seq![dotdot_zip_entry(archive, cwd)]
    } else {
        match fs_parent_spec(archive) {
            Some(par) => seq![dotdot_fs_entry(par)],
            None => Seq::<EntryView>::empty(),
        }
    })
    &&& q.selected_index == 0
    &&& q.top_index == 0
    &&& q.streaming == true
    &&& q.prefer_select_name.deep_view() == remembered
}

impl FileSystemModel {
    /// Points a panel at a filesystem directory and prepares it for the
    /// stream: only the placeholder parent row shows until batches arrive.
    /// The cursor-restore request is the given hint, or failing that the
    /// remembered name for the destination.
    pub fn begin_fs_navigation(
        &mut self,
        target_panel: ActivePanel,
        path: Vec<u8>,
        prefer_name: Option<Vec<u8>>,
    )
        requires
            old(self).wf(),
        ensures
            final(self).wf(),
            final(self).active_panel == old(self).active_panel,
            final(self).preview == old(self).preview,
            final(self).fs_last_selected_name == old(self).fs_last_selected_name,
            final(self).zip_last_selected_name == old(self).zip_last_selected_name,
            final(self).theme == old(self).theme,
            final(self).theme_picker_open == old(self).theme_picker_open,
            final(self).theme_picker_selected == old(self).theme_picker_selected,
            spec_panel(final(self), other_side(target_panel)) == spec_panel(
                old(self),
                other_side(target_panel),
            ),
            fs_nav_state(
                spec_panel(final(self), target_panel),
                path@,
                match prefer_name {
                    Some(p) => Some(p@),
                    None => old(self).fs_last_selected_name.spec_lookup(path@, Seq::empty()),
                },
            ),
    {
        let remembered: Option<Vec<u8>> = match prefer_name {
            Some(p) => {
                proof {
                    assert(p.deep_view() =~= p@);
                }
                Some(p)
            },
            None => {
                let nb: Vec<u8> = Vec::new();
                self.fs_last_selected_name.lookup(path.as_slice(), nb.as_slice())
            },
        };
        let mut initial: Vec<DirEntry> = Vec::new();
        match fs_parent(path.as_slice()) {
            Some(par) => {
                proof {
                    assert(par.deep_view() =~= par@);
                }
                initial.push(
                    DirEntry { name: dotdot(), is_dir: true, location: EntryLocation::Fs { path: par } },
                );
            },
            None => {},
        }
        proof {
            match fs_parent_spec(path@) {
                Some(par) => {
                    assert(entries_view(initial@) =~= seq![dotdot_fs_entry(par)]);
                },
                None => {
                    assert(entries_view(initial@) =~= Seq::<EntryView>::empty());
                },
            }
        }
        let panel = match target_panel {
            ActivePanel::Left => &mut self.left_panel,
            ActivePanel::Right => &mut self.right_panel,
        };
        panel.current_path = path;
        panel.mode = PanelMode::Fs;
        panel.entries = initial;
        panel.selected_index = 0;
        panel.top_index = 0;
        panel.streaming = true;
        panel.prefer_select_name = remembered;
    }

    /// Points a panel at an inner directory of an archive and prepares it
    /// for the stream.  At the archive root the placeholder parent row leads
    /// back out into the filesystem.
    pub fn begin_zip_navigation(
        &mut self,
        target_panel: ActivePanel,
        archive_path: Vec<u8>,
        cwd: Vec<u8>,
        prefer_name: Option<Vec<u8>>,
    )
        requires
            old(self).wf(),
        ensures
            final(self).wf(),
            final(self).active_panel == old(self).active_panel,
            final(self).preview == old(self).preview,
            final(self).fs_last_selected_name == old(self).fs_last_selected_name,
            final(self).zip_last_selected_name == old(self).zip_last_selected_name,
            final(self).theme == old(self).theme,
            final(self).theme_picker_open == old(self).theme_picker_open,
            final(self).theme_picker_selected == old(self).theme_picker_selected,
            spec_panel(final(self), other_side(target_panel)) == spec_panel(
                old(self),
                other_side(target_panel),
            ),
            zip_nav_state(
                spec_panel(final(self), target_panel),
                archive_path@,
                cwd@,
                match prefer_name {
                    Some(p) => Some(p@),
                    None => old(self).zip_last_selected_name.spec_lookup(archive_path@, cwd@),
                },
            ),
    {
        let remembered: Option<Vec<u8>> = match prefer_name {
            Some(p) => {
                proof {
                    assert(p.deep_view() =~= p@);
                }
                Some(p)
            },
            None => {
                self.zip_last_selected_name.lookup(archive_path.as_slice(), cwd.as_slice())
            },
        };
        let mut initial: Vec<DirEntry> = Vec::new();
        if cwd.len() > 0 {
            let par = crate::paths::zip_parent(cwd.as_slice());
            initial.push(
                DirEntry {
                    name: dotdot(),
                    is_dir: true,
                    location: EntryLocation::Zip {
                        archive_path: copy_bytes(archive_path.as_slice()),
                        inner_path: par,
                    },
                },
            );
            proof {
                assert(entries_view(initial@) =~= seq![dotdot_zip_entry(archive_path@, cwd@)]);
            }
        } else {
            match fs_parent(archive_path.as_slice()) {
                Some(par) => {
                    proof {
                        assert(par.deep_view() =~= par@);
                    }
                    initial.push(
                        DirEntry {
                            name: dotdot(),
                            is_dir: true,
                            location: EntryLocation::Fs { path: par },
                        },
                    );
                },
                None => {},
            }
            proof {
                match fs_parent_spec(archive_path@) {
                    Some(par) => {
                        assert(entries_view(initial@) =~= seq![dotdot_fs_entry(par)]);
                    },
                    None => {
                        assert(entries_view(initial@) =~= Seq::<EntryView>::empty());
                    },
                }
            }
        }
        let mode = PanelMode::Zip { archive_path: copy_bytes(archive_path.as_slice()), cwd };
        let panel = match target_panel {
            ActivePanel::Left => &mut self.left_panel,
            ActivePanel::Right => &mut self.right_panel,
        };
        panel.current_path = archive_path;
        panel.mode = mode;
        panel.entries = initial;
        panel.selected_index = 0;
        panel.top_index = 0;
        panel.streaming = true;
        panel.prefer_select_name = remembered;
    }

    /// Records the name under the cursor for the focused panel's location,
    /// in the memory that matches its backend.
    pub fn store_current_selection_memory(&mut self)
        requires
            old(self).wf(),
        ensures
            final(self).wf(),
            final(self).left_panel == old(self).left_panel,
            final(self).right_panel == old(self).right_panel,
            final(self).active_panel == old(self).active_panel,
            final(self).preview == old(self).preview,
            final(self).theme == old(self).theme,
            final(self).theme_picker_open == old(self).theme_picker_open,
            final(self).theme_picker_selected == old(self).theme_picker_selected,
            memory_store_effect(old(self), final(self)),
    {
        let p = self.get_active_panel();
        if p.entries.len() == 0 {
            return;
        }
        let name = copy_bytes(p.entries[p.selected_index].name.as_slice());
        let is_fs = match &p.mode {
            PanelMode::Fs => true,
            PanelMode::Zip { .. } => false,
        };
        if is_fs {
            let key = copy_bytes(p.current_path.as_slice());
            self.fs_last_selected_name.insert(key, Vec::new(), name);
        } else {
            let (ka, kb) = match &p.mode {
                PanelMode::Zip { archive_path, cwd } => (
                    copy_bytes(archive_path.as_slice()),
                    copy_bytes(cwd.as_slice()),
                ),
                PanelMode::Fs => (Vec::new(), Vec::new()),
            };
            self.zip_last_selected_name.insert(ka, kb, name);
        }
    }

    /// Opens the entry under the cursor: first the selection is remembered
    /// for the current location; a directory (filesystem or archive-inner)
    /// or an archive file then starts a fresh navigation on the focused
    /// panel and returns the enumeration the shell must run; any other file
    /// is terminal here.
    pub fn open_selected(&mut self) -> (r: Option<NavRequest>)
        requires
            old(self).wf(),
        ensures
            final(self).wf(),
            final(self).active_panel == old(self).active_panel,
            final(self).preview == old(self).preview,
            final(self).theme == old(self).theme,
            final(self).theme_picker_open == old(self).theme_picker_open,
            final(self).theme_picker_selected == old(self).theme_picker_selected,
            spec_panel(final(self), other_side(old(self).active_panel)) == spec_panel(
                old(self),
                other_side(old(self).active_panel),
            ),
            ({
                let p = spec_panel(old(self), old(self).active_panel);
                if p.len() == 0 {
                    spec_panel(final(self), old(self).active_panel) == p && r is None
                        && final(self).fs_last_selected_name == old(self).fs_last_selected_name
                        && final(self).zip_last_selected_name == old(self).zip_last_selected_name
                } else {
                    memory_store_effect(old(self), final(self)) && open_nav_effect(
                        old(self),
                        final(self),
                        nav_view(r),
                    )
                }
            }),
    {
        let active = self.active_panel;
        {
            let p = self.get_active_panel();
            if p.entries.len() == 0 {
                return None;
            }
        }
        let (sel_name, sel_is_dir, sel_loc, cur_path, zip_cwd) = {
            let p = self.get_active_panel();
            let e = &p.entries[p.selected_index];
            let zc: Option<Vec<u8>> = match &p.mode {
                PanelMode::Zip { cwd, .. } => Some(copy_bytes(cwd.as_slice())),
                PanelMode::Fs => None,
            };
            (
                copy_bytes(e.name.as_slice()),
                e.is_dir,
                crate::entry::copy_location(&e.location),
                copy_bytes(p.current_path.as_slice()),
                zc,
            )
        };
        self.store_current_selection_memory();
        let dd = dotdot();
        let was_dotdot = bytes_eq(sel_name.as_slice(), dd.as_slice());
        match sel_loc {
            EntryLocation::Fs { path } => {
                if sel_is_dir {
                    let prefer: Option<Vec<u8>> = if was_dotdot {
                        fs_basename(cur_path.as_slice())
                    } else {
                        None
                    };
                    proof {
                        match prefer {
                            Some(ref v) => {
                                assert(v.deep_view() =~= v@);
                            },
                            None => {},
                        }
                    }
                    let path2 = copy_bytes(path.as_slice());
                    self.begin_fs_navigation(active, path2, prefer);
                    if !was_dotdot {
                        let nb: Vec<u8> = Vec::new();
                        let found = self.fs_last_selected_name.lookup(path.as_slice(), nb.as_slice());
                        if let Some(nm) = found {
                            self.select_entry_by_name(active, nm.as_slice());
                            proof {
                                lemma_find_name_bound(
                                    entries_view(spec_panel(self, active).entries@),
                                    nm@,
                                );
                            }
                        }
                    }
                    Some(NavRequest::Fs { path })
                } else if is_zip_path(path.as_slice()) {
                    let a2 = copy_bytes(path.as_slice());
                    self.begin_zip_navigation(active, a2, Vec::new(), None);
                    Some(NavRequest::Zip { archive_path: path, cwd: Vec::new() })
                } else {
                    None
                }
            },
            EntryLocation::Zip { archive_path, inner_path } => {
                if sel_is_dir {
                    let prefer: Option<Vec<u8>> = if was_dotdot {
                        match zip_cwd {
                            Some(c) => Some(zip_last_segment(c.as_slice())),
                            None => None,
                        }
                    } else {
                        None
                    };
                    proof {
                        match prefer {
                            Some(ref v) => {
                                assert(v.deep_view() =~= v@);
                            },
                            None => {},
                        }
                    }
                    let a2 = copy_bytes(archive_path.as_slice());
                    let i2 = copy_bytes(inner_path.as_slice());
                    self.begin_zip_navigation(active, a2, i2, prefer);
                    if !was_dotdot {
                        let found = self.zip_last_selected_name.lookup(
                            archive_path.as_slice(),
                            inner_path.as_slice(),
                        );
                        if let Some(nm) = found {
                            self.select_entry_by_name(active, nm.as_slice());
                            proof {
                                lemma_find_name_bound(
                                    entries_view(spec_panel(self, active).entries@),
                                    nm@,
                                );
                            }
                        }
                    }
                    Some(NavRequest::Zip { archive_path, cwd: inner_path })
                } else {
                    None
                }
            },
        }
    }

    /// The copy job for the current selection: a filesystem source under the
    /// cursor, copied into the other panel's filesystem directory.  Nothing
    /// is offered for archive-internal sources or an archive destination.
    pub fn enqueue_copy_selected(&self) -> (r: Option<CopyJob>)
        requires
            self.wf(),
        ensures
            ({
                let p = spec_panel(self, self.active_panel);
                let other = spec_panel(self, other_side(self.active_panel));
                if p.len() == 0 {
                    r is None
                } else {
                    match sel_entry(&p).location {
                        LocationView::Zip { archive_path, inner_path } => r is None,
                        LocationView::Fs { path } => match other.mode@ {
                            PanelModeView::Zip { archive_path, cwd } => r is None,
                            PanelModeView::Fs => match r {
                                Some(job) => job.src@ == path && job.dst_dir@
                                    == other.current_path@,
                                None => false,
                            },
                        },
                    }
                }
            }),
    {
        let p = self.get_active_panel();
        if p.entries.len() == 0 {
            return None;
        }
        let src = match &p.entries[p.selected_index].location {
            EntryLocation::Fs { path } => copy_bytes(path.as_slice()),
            EntryLocation::Zip { .. } => {
                return None;
            },
        };
        let other = self.panel(match self.active_panel {
            ActivePanel::Left => ActivePanel::Right,
            ActivePanel::Right => ActivePanel::Left,
        });
        match &other.mode {
            PanelMode::Fs => Some(
                CopyJob { src, dst_dir: copy_bytes(other.current_path.as_slice()) },
            ),
            PanelMode::Zip { .. } => None,
        }
    }
}

/// What remembering the current selection does to the two memories.
pub open spec fn memory_store_effect(m0: &FileSystemModel, m1: &FileSystemModel) -> bool {
    let p = spec_panel(m0, m0.active_panel);
    if p.len() == 0 {
        &&& m1.fs_last_selected_name == m0.fs_last_selected_name
        &&& m1.zip_last_selected_name == m0.zip_last_selected_name
    } else {
        match p.mode@ {
            PanelModeView::Fs => {
                &&& m1.zip_last_selected_name == m0.zip_last_selected_name
                &&& forall|x: Seq<u8>, y: Seq<u8>|
                    m1.fs_last_selected_name.spec_lookup(x, y) == (if x == p.current_path@ && y
                        == Seq::<u8>::empty() {
                        Some(sel_entry(&p).name)
                    } else {
                        m0.fs_last_selected_name.spec_lookup(x, y)
                    })
            },
            PanelModeView::Zip { archive_path, cwd } => {
                &&& m1.fs_last_selected_name == m0.fs_last_selected_name
                &&& forall|x: Seq<u8>, y: Seq<u8>|
                    m1.zip_last_selected_name.spec_lookup(x, y) == (if x == archive_path && y
                        == cwd {
                        Some(sel_entry(&p).name)
                    } else {
                        m0.zip_last_selected_name.spec_lookup(x, y)
                    })
            },
        }
    }
}

/// What opening the current selection does to the focused panel and which
/// enumeration it requests, once the selection has been remembered.
pub open spec fn open_nav_effect(
    m0: &FileSystemModel,
    m1: &FileSystemModel,
    r: Option<NavRequestView>,
) -> bool {
    let p = spec_panel(m0, m0.active_panel);
    let q = spec_panel(m1, m0.active_panel);
    let e = sel_entry(&p);
    match e.location {
        LocationView::Fs { path } => {
            if e.is_dir {
                let hint: Option<Seq<u8>> = if e.name == dotdot_name() {
                    fs_basename_spec(p.current_path@)
                } else {
                    None
                };
                let remembered: Option<Seq<u8>> = match hint {
                    Some(h) => Some(h),
                    None => m1.fs_last_selected_name.spec_lookup(path, Seq::empty()),
                };
                &&& fs_nav_state(q, path, remembered)
                &&& r == Some(NavRequestView::Fs { path })
            } else if is_zip_path_spec(path) {
                &&& zip_nav_state(
                    q,
                    path,
                    Seq::empty(),
                    m1.zip_last_selected_name.spec_lookup(path, Seq::empty()),
                )
                &&& r == Some(NavRequestView::Zip { archive_path: path, cwd: Seq::empty() })
            } else {
                q == p && r is None
            }
        },
        LocationView::Zip { archive_path, inner_path } => {
            if e.is_dir {
                let hint: Option<Seq<u8>> = if e.name == dotdot_name() {
                    match p.mode@ {
                        PanelModeView::Zip { archive_path: a, cwd } => Some(
                            zip_last_segment_spec(cwd),
                        ),
                        PanelModeView::Fs => None,
                    }
                } else {
                    None
                };
                let remembered: Option<Seq<u8>> = match hint {
                    Some(h) => Some(h),
                    None => m1.zip_last_selected_name.spec_lookup(archive_path, inner_path),
                };
                &&& zip_nav_state(q, archive_path, inner_path, remembered)
                &&& r == Some(
                    NavRequestView::Zip { archive_path, cwd: inner_path },
                )
            } else {
                q == p && r is None
            }
        },
    }
}

impl FileSystemModel {
    /// With the picker open over external themes the highlighted one is
    /// applied; otherwise the theme toggles (next external, or dark/light).
    pub fn switch_theme(&mut self)
        requires
            old(self).wf(),
        ensures
            final(self).wf(),
            final(self).left_panel == old(self).left_panel,
            final(self).right_panel == old(self).right_panel,
            final(self).active_panel == old(self).active_panel,
            final(self).preview == old(self).preview,
            final(self).fs_last_selected_name == old(self).fs_last_selected_name,
            final(self).zip_last_selected_name == old(self).zip_last_selected_name,
            final(self).theme.external@ == old(self).theme.external@,
            (old(self).theme.selected_external is Some && old(self).theme_picker_open) ==> ({
                &&& applied_theme_effect(old(self), final(self))
            }),
            !(old(self).theme.selected_external is Some && old(self).theme_picker_open) ==> ({
                &&& final(self).theme_picker_open == old(self).theme_picker_open
                &&& final(self).theme_picker_selected == old(self).theme_picker_selected
                &&& toggled_theme_effect(old(self).theme, final(self).theme)
            }),
    {
        if self.theme.selected_external.is_some() && self.theme_picker_open {
            self.apply_selected_theme();
        } else {
            self.theme.toggle();
        }
    }

    /// Opens the theme picker with the cursor on the active external theme,
    /// or on the first entry.
    pub fn open_theme_picker(&mut self)
        requires
            old(self).wf(),
        ensures
            final(self).wf(),
            final(self).left_panel == old(self).left_panel,
            final(self).right_panel == old(self).right_panel,
            final(self).active_panel == old(self).active_panel,
            final(self).preview == old(self).preview,
            final(self).fs_last_selected_name == old(self).fs_last_selected_name,
            final(self).zip_last_selected_name == old(self).zip_last_selected_name,
            final(self).theme == old(self).theme,
            final(self).theme_picker_open == true,
            final(self).theme_picker_selected == (match old(self).theme.selected_external {
                Some(i) => Some(i),
                None => Some(0usize),
            }),
    {
        self.theme_picker_open = true;
        self.theme_picker_selected = match self.theme.selected_external {
            Some(i) => Some(i),
            None => Some(0),
        };
    }

    /// Closes the theme picker; the theme itself is untouched.
    pub fn close_theme_picker(&mut self)
        requires
            old(self).wf(),
        ensures
            final(self).wf(),
            final(self).left_panel == old(self).left_panel,
            final(self).right_panel == old(self).right_panel,
            final(self).active_panel == old(self).active_panel,
            final(self).preview == old(self).preview,
            final(self).fs_last_selected_name == old(self).fs_last_selected_name,
            final(self).zip_last_selected_name == old(self).zip_last_selected_name,
            final(self).theme == old(self).theme,
            final(self).theme_picker_selected == old(self).theme_picker_selected,
            final(self).theme_picker_open == false,
    {
        self.theme_picker_open = false;
    }

    /// Moves the picker cursor to the next external theme, wrapping.
    pub fn select_next_theme(&mut self)
        requires
            old(self).wf(),
        ensures
            final(self).wf(),
            final(self).left_panel == old(self).left_panel,
            final(self).right_panel == old(self).right_panel,
            final(self).active_panel == old(self).active_panel,
            final(self).preview == old(self).preview,
            final(self).fs_last_selected_name == old(self).fs_last_selected_name,
            final(self).zip_last_selected_name == old(self).zip_last_selected_name,
            final(self).theme == old(self).theme,
            final(self).theme_picker_open == old(self).theme_picker_open,
            old(self).theme.external@.len() == 0 ==> final(self).theme_picker_selected == old(
                self,
            ).theme_picker_selected,
            old(self).theme.external@.len() > 0 ==> final(self).theme_picker_selected == Some(
                ((match old(self).theme_picker_selected {
                    Some(i) => i as int,
                    None => 0int,
                } + 1) % (old(self).theme.external@.len() as int)) as usize,
            ),
    {
        if self.theme.external.len() == 0 {
            return;
        }
        let len = self.theme.external.len();
        let cur = match self.theme_picker_selected {
            Some(i) => i,
            None => 0,
        };
        let next = if cur >= len {
            1 % len
        } else if cur + 1 == len {
            0
        } else {
            cur + 1
        };
        proof {
            let c = cur as int;
            let l = len as int;
            assert((c + 1) % l == (if c >= l {
                1int % l
            } else if c + 1 == l {
                0int
            } else {
                c + 1
            })) by (nonlinear_arith)
                requires
                    1 <= l,
                    0 <= c <= l,
            ;
        }
        self.theme_picker_selected = Some(next);
    }

    /// Moves the picker cursor to the previous external theme, wrapping.
    pub fn select_prev_theme(&mut self)
        requires
            old(self).wf(),
        ensures
            final(self).wf(),
            final(self).left_panel == old(self).left_panel,
            final(self).right_panel == old(self).right_panel,
            final(self).active_panel == old(self).active_panel,
            final(self).preview == old(self).preview,
            final(self).fs_last_selected_name == old(self).fs_last_selected_name,
            final(self).zip_last_selected_name == old(self).zip_last_selected_name,
            final(self).theme == old(self).theme,
            final(self).theme_picker_open == old(self).theme_picker_open,
            old(self).theme.external@.len() == 0 ==> final(self).theme_picker_selected == old(
                self,
            ).theme_picker_selected,
            old(self).theme.external@.len() > 0 ==> final(self).theme_picker_selected == Some(
                ((match old(self).theme_picker_selected {
                    Some(i) => i as int,
                    None => 0int,
                } + old(self).theme.external@.len() as int - 1) % (old(
                    self,
                ).theme.external@.len() as int)) as usize,
            ),
    {
        if self.theme.external.len() == 0 {
            return;
        }
        let len = self.theme.external.len();
        let cur = match self.theme_picker_selected {
            Some(i) => i,
            None => 0,
        };
        let prev = if cur == 0 {
            len - 1
        } else {
            (cur - 1) % len
        };
        proof {
            let c = cur as int;
            let l = len as int;
            assert((c + l - 1) % l == (if c == 0 {
                l - 1
            } else {
                (c - 1) % l
            })) by (nonlinear_arith)
                requires
                    1 <= l,
                    0 <= c <= l,
            ;
        }
        self.theme_picker_selected = Some(prev);
    }

    /// Applies the external theme under the picker cursor, when it names
    /// one, and closes the picker.
    pub fn apply_selected_theme(&mut self)
        requires
            old(self).wf(),
        ensures
            final(self).wf(),
            final(self).left_panel == old(self).left_panel,
            final(self).right_panel == old(self).right_panel,
            final(self).active_panel == old(self).active_panel,
            final(self).preview == old(self).preview,
            final(self).fs_last_selected_name == old(self).fs_last_selected_name,
            final(self).zip_last_selected_name == old(self).zip_last_selected_name,
            final(self).theme.external@ == old(self).theme.external@,
            applied_theme_effect(old(self), final(self)),
    {
        if let Some(i) = self.theme_picker_selected {
            if i < self.theme.external.len() {
                self.theme.selected_external = Some(i);
            }
        }
        self.theme_picker_open = false;
    }

    /// The names the theme picker offers.
    pub fn theme_names(&self) -> (r: Vec<Vec<u8>>)
        ensures
            self.theme.external@.len() == 0 ==> crate::bytes::names_view(r@) =~= seq![
                seq![0x44u8, 0x61u8, 0x72u8, 0x6bu8],
                seq![0x4cu8, 0x69u8, 0x67u8, 0x68u8, 0x74u8],
            ],
            self.theme.external@.len() > 0 ==> crate::bytes::names_view(r@)
                == crate::bytes::names_view(self.theme.external@),
    {
        self.theme.theme_names()
    }
}

/// What applying the picker's highlighted theme does: the choice lands in
/// the theme when it names a loaded external, and the picker closes.
pub open spec fn applied_theme_effect(m0: &FileSystemModel, m1: &FileSystemModel) -> bool {
    &&& m1.theme.kind == m0.theme.kind
    &&& m1.theme.external@ == m0.theme.external@
    &&& m1.theme.selected_external == (match m0.theme_picker_selected {
        Some(i) => if (i as int) < m0.theme.external@.len() {
            Some(i)
        } else {
            m0.theme.selected_external
        },
        None => m0.theme.selected_external,
    })
    &&& m1.theme_picker_open == false
    &&& m1.theme_picker_selected == m0.theme_picker_selected
}

/// What toggling the theme does: the next external theme when externals
/// exist, else the other built-in.
pub open spec fn toggled_theme_effect(t0: Theme, t1: Theme) -> bool {
    &&& t1.external@ == t0.external@
    &&& (t0.external@.len() > 0 ==> t1.kind == t0.kind && t1.selected_external == Some(
        (match t0.selected_external {
            None => 0int,
            Some(i) => (i + 1) % (t0.external@.len() as int),
        }) as usize,
    ))
    &&& (t0.external@.len() == 0 ==> t1.selected_external == t0.selected_external && t1.kind == (
    match t0.kind {
        crate::theme::ThemeKind::Dark => crate::theme::ThemeKind::Light,
        crate::theme::ThemeKind::Light => crate::theme::ThemeKind::Dark,
    }))
}

/// A found name's position is a valid entry index.
pub proof fn lemma_find_name_bound(es: Seq<EntryView>, name: Seq<u8>)
    ensures
        match find_name(es, name) {
            Some(i) => 0 <= i < es.len(),
            None => true,
        },
    decreases es.len(),
{
    if es.len() > 0 && es[0].name != name {
        lemma_find_name_bound(es.drop_first(), name);
    }
}

/// A found position carries the name, and nothing before it does.
pub proof fn lemma_find_name_char(es: Seq<EntryView>, name: Seq<u8>)
    ensures
        match find_name(es, name) {
            Some(i) => 0 <= i < es.len() && es[i].name == name && forall|k: int|
                0 <= k < i ==> (#[trigger] es[k]).name != name,
            None => forall|k: int| 0 <= k < es.len() ==> (#[trigger] es[k]).name != name,
        },
    decreases es.len(),
{
    if es.len() > 0 && es[0].name != name {
        lemma_find_name_char(es.drop_first(), name);
        assert(forall|k: int| 1 <= k < es.len() ==> es[k] == es.drop_first()[k - 1]);
    }
}

/// The selection-memory round trip.  In `m0` the focused panel browses a
/// filesystem directory with the cursor on some entry; `m1` is the state
/// after that selection was remembered (as `open_selected` does first);
/// `p_nav` is the focused panel after a later navigation back into the same
/// directory, with the remembered name as its pending restore request; and
/// `p_pumped` is that panel after a pump step delivered batches in which the
/// remembered name has appeared.  Then the cursor points at the first entry
/// carrying the originally selected name, and the request is cleared.
pub proof fn selection_memory_round_trip(
    m0: &FileSystemModel,
    m1: &FileSystemModel,
    p_nav: PanelState,
    p_pumped: PanelState,
    b: Vec<DirEntry>,
    rows: int,
)
    requires
        rows >= 1,
        spec_panel(m0, m0.active_panel).mode@ == PanelModeView::Fs,
        spec_panel(m0, m0.active_panel).len() > 0,
        memory_store_effect(m0, m1),
        fs_nav_state(
            p_nav,
            spec_panel(m0, m0.active_panel).current_path@,
            m1.fs_last_selected_name.spec_lookup(
                spec_panel(m0, m0.active_panel).current_path@,
                Seq::empty(),
            ),
        ),
        pump_effect(p_nav, p_pumped, &PumpEvent::Batch(b), rows),
        find_name(
            entries_view(p_nav.entries@) + entries_view(b@),
            sel_entry(&spec_panel(m0, m0.active_panel)).name,
        ) is Some,
    ensures
        p_pumped.prefer_select_name is None,
        p_pumped.selected_index < p_pumped.entries@.len(),
        entries_view(p_pumped.entries@)[p_pumped.selected_index as int].name == sel_entry(
            &spec_panel(m0, m0.active_panel),
        ).name,
{
    let x = sel_entry(&spec_panel(m0, m0.active_panel)).name;
    let newe = entries_view(p_nav.entries@) + entries_view(b@);
    assert(p_nav.prefer_select_name.deep_view() == Some(x));
    lemma_find_name_char(newe, x);
}

/// What one pump step does to one panel.
pub open spec fn pump_effect(p: PanelState, q: PanelState, event: &PumpEvent, rows: int) -> bool {
    if !p.streaming {
        q == p
    } else {
        match event {
            PumpEvent::Empty => q == p,
            PumpEvent::Closed => {
                &&& q.entries == p.entries
                &&& q.current_path == p.current_path
                &&& q.mode == p.mode
                &&& q.selected_index == p.selected_index
                &&& q.top_index == p.top_index
                &&& q.prefer_select_name == p.prefer_select_name
                &&& q.streaming == false
            },
            PumpEvent::Batch(b) => {
                let newe = entries_view(p.entries@) + entries_view(b@);
                &&& entries_view(q.entries@) == newe
                &&& q.current_path == p.current_path
                &&& q.mode == p.mode
                &&& q.streaming == p.streaming
                &&& (match p.prefer_select_name.deep_view() {
                    Some(nm) => (match find_name(newe, nm) {
                        Some(i) => {
                            &&& q.selected_index as int == i
                            &&& q.prefer_select_name is None
                            &&& q.top_index as int == normalized_top(
                                newe.len() as int,
                                i,
                                p.top_index as int,
                                rows,
                            )
                        },
                        None => {
                            &&& q.selected_index as int == clamped_sel(
                                newe.len() as int,
                                p.selected_index as int,
                            )
                            &&& q.prefer_select_name.deep_view() == Some(nm)
                            &&& q.top_index as int == normalized_top(
                                newe.len() as int,
                                p.selected_index as int,
                                p.top_index as int,
                                rows,
                            )
                        },
                    }),
                    None => {
                        &&& q.selected_index as int == clamped_sel(
                            newe.len() as int,
                            p.selected_index as int,
                        )
                        &&& q.prefer_select_name is None
                        &&& q.top_index as int == normalized_top(
                            newe.len() as int,
                            p.selected_index as int,
                            p.top_index as int,
                            rows,
                        )
                    },
                })
                &&& q.window_ok(rows)
            },
        }
    }
}

/// Applies one pump step to one panel.
fn pump_one(p: &mut PanelState, event: PumpEvent, visible_rows: usize)
    requires
        visible_rows >= 1,
        old(p).basic_wf(),
    ensures
        final(p).basic_wf(),
        pump_effect(*old(p), *final(p), &event, visible_rows as int),
{
    if !p.streaming {
        return;
    }
    match event {
        PumpEvent::Empty => {},
        PumpEvent::Closed => {
            p.streaming = false;
        },
        PumpEvent::Batch(mut b) => {
            let ghost e0 = entries_view(p.entries@);
            let ghost bv = entries_view(b@);
            p.entries.append(&mut b);
            proof {
                assert(entries_view(p.entries@) =~= e0 + bv);
                match old(p).prefer_select_name {
                    Some(v) => {
                        assert(v.deep_view() =~= v@);
                    },
                    None => {},
                }
            }
            let pref_taken = match &p.prefer_select_name {
                Some(nm) => Some(copy_bytes(nm.as_slice())),
                None => None,
            };
            if let Some(nm) = pref_taken {
                match find_entry_by_name(&p.entries, nm.as_slice()) {
                    Some(idx) => {
                        proof {
                            lemma_find_name_bound(entries_view(p.entries@), nm@);
                        }
                        p.selected_index = idx;
                        p.prefer_select_name = None;
                    },
                    None => {},
                }
            }
            p.normalize_window(visible_rows);
        },
    }
}

/// Moves a panel's window by a row delta and keeps the cursor visible.
fn scroll_one(p: &mut PanelState, delta_rows: i64, visible_rows: usize)
    requires
        visible_rows >= 1,
        delta_rows > i64::MIN,
        old(p).basic_wf(),
    ensures
        final(p).basic_wf(),
        final(p).entries == old(p).entries,
        final(p).current_path == old(p).current_path,
        final(p).mode == old(p).mode,
        final(p).streaming == old(p).streaming,
        final(p).prefer_select_name == old(p).prefer_select_name,
        final(p).selected_index == old(p).selected_index,
        final(p).top_index as int == normalized_top(
            old(p).len(),
            old(p).selected_index as int,
            crate::window::scroll_top_spec(
                old(p).top_index as int,
                delta_rows as int,
                max_top(old(p).len(), visible_rows as int),
            ),
            visible_rows as int,
        ),
        final(p).window_ok(visible_rows as int),
{
    let len = p.entries.len();
    let mt = if len > visible_rows {
        len - visible_rows
    } else {
        0
    };
    if delta_rows >= 0 {
        if p.top_index >= mt {
            p.top_index = mt;
        } else {
            let room = mt - p.top_index;
            if (delta_rows as u64) >= (room as u64) {
                p.top_index = mt;
            } else {
                p.top_index = p.top_index + (delta_rows as usize);
            }
        }
    } else {
        let m = (-delta_rows) as u64;
        if (p.top_index as u64) <= m {
            p.top_index = 0;
        } else {
            p.top_index = p.top_index - (m as usize);
        }
        if p.top_index > mt {
            p.top_index = mt;
        }
    }
    p.normalize_window(visible_rows);
}

} // verus!

