//! Per-panel state: the location being browsed, the ordered entry list, the
//! cursor, the scroll window, and the streaming bookkeeping.

use vstd::prelude::*;
use crate::entry::{DirEntry, PanelMode, PanelModeView};
use crate::window::{max_top, clamped_sel, normalized_top};
use crate::bytes::copy_bytes;

verus! {

/// One browsable panel.
pub struct PanelState {
    /// For a filesystem panel the directory shown; for an archive panel the
    /// archive file's path.
    pub current_path: Vec<u8>,
    pub mode: PanelMode,
    pub entries: Vec<DirEntry>,
    pub selected_index: usize,
    pub top_index: usize,
    /// Whether a pending batch queue exists for this panel.
    pub streaming: bool,
    /// A pending request to restore the cursor to this name.
    pub prefer_select_name: Option<Vec<u8>>,
}

impl PanelState {
    /// Number of entries.
    pub open spec fn len(&self) -> int {
        self.entries@.len() as int
    }

    /// The cursor names a real entry, and an empty panel is fully reset.
    pub open spec fn basic_wf(&self) -> bool {
        &&& self.len() > 0 ==> self.selected_index < self.len()
        &&& self.len() == 0 ==> self.selected_index == 0 && self.top_index == 0
        &&& self.top_index <= self.len()
    }

    /// The cursor lies inside the visible window and the window inside the
    /// listing.
    pub open spec fn window_ok(&self, rows: int) -> bool {
        &&& self.basic_wf()
        &&& self.len() > 0 ==> self.top_index <= self.selected_index < self.top_index + rows
        &&& self.top_index <= max_top(self.len(), rows)
    }

    /// A fresh filesystem panel showing the given path, before any entries
    /// arrive.
    pub fn new_fs(path: Vec<u8>) -> (r: Self)
        ensures
            r.current_path@ == path@,
            r.mode@ == PanelModeView::Fs,
            r.entries@.len() == 0,
            r.selected_index == 0,
            r.top_index == 0,
            r.streaming == false,
            r.prefer_select_name is None,
            r.basic_wf(),
    {
        PanelState {
            current_path: path,
            mode: PanelMode::Fs,
            entries: Vec::new(),
            selected_index: 0,
            top_index: 0,
            streaming: false,
            prefer_select_name: None,
        }
    }

    /// Clamps the cursor and pulls the window over it, per the scrolling
    /// rules: used after any selection change or entry mutation.
    pub fn normalize_window(&mut self, rows: usize)
        requires
            rows >= 1,
        ensures
            final(self).entries == old(self).entries,
            final(self).current_path == old(self).current_path,
            final(self).mode == old(self).mode,
            final(self).streaming == old(self).streaming,
            final(self).prefer_select_name == old(self).prefer_select_name,
            final(self).selected_index as int == clamped_sel(
                old(self).len(),
                old(self).selected_index as int,
            ),
            final(self).top_index as int == normalized_top(
                old(self).len(),
                old(self).selected_index as int,
                old(self).top_index as int,
                rows as int,
            ),
            final(self).window_ok(rows as int),
    {
        let len = self.entries.len();
        if len == 0 {
            self.selected_index = 0;
            self.top_index = 0;
            return;
        }
        if self.selected_index >= len {
            self.selected_index = len - 1;
        }
        let sel = self.selected_index;
        if sel < self.top_index {
            self.top_index = sel;
        } else if sel - self.top_index >= rows {
            self.top_index = sel - (rows - 1);
        }
        let mt = if len > rows {
            len - rows
        } else {
            0
        };
        if self.top_index > mt {
            self.top_index = mt;
        }
    }

    /// The bounds of the visible entry slice: from the window top up to the
    /// row capacity or the end of the listing, whichever comes first.
    pub fn visible_range(&self, visible_rows: usize) -> (r: (usize, usize))
        requires
            self.basic_wf(),
        ensures
            r.0 == self.top_index,
            r.1 as int == (if self.top_index + visible_rows < self.entries@.len() {
                self.top_index + visible_rows
            } else {
                self.len()
            }),
            r.0 <= r.1,
    {
        let len = self.entries.len();
        let end = if visible_rows < len && self.top_index < len - visible_rows {
            self.top_index + visible_rows
        } else {
            len
        };
        (self.top_index, end)
    }

    /// The path shown in the panel header: the filesystem path itself, or
    /// `archive::zip:/cwd` for an archive panel.
    pub fn display_path(&self) -> (r: Vec<u8>)
        ensures
            r@ == display_path_spec(self.current_path@, self.mode@),
    {
        match &self.mode {
            PanelMode::Fs => copy_bytes(self.current_path.as_slice()),
            PanelMode::Zip { archive_path, cwd } => {
                let mut r = copy_bytes(archive_path.as_slice());
                r.push(0x3a);
                r.push(0x3a);
                r.push(0x7a);
                r.push(0x69);
                r.push(0x70);
                r.push(0x3a);
                r.push(0x2f);
                let n = cwd.len();
                let mut i: usize = 0;
                proof {
                    assert(r@ =~= archive_path@ + zip_marker() + cwd@.take(0));
                }
                while i < n
                    invariant
                        i <= n,
                        n == cwd@.len(),
                        r@ == archive_path@ + zip_marker() + cwd@.take(i as int),
                    decreases n - i,
                {
                    let b = cwd[i];
                    r.push(b);
                    proof {
                        assert(cwd@.take(i + 1) =~= cwd@.take(i as int).push(cwd@[i as int]));
                    }
                    i += 1;
                }
                proof {
                    assert(cwd@.take(n as int) =~= cwd@);
                    assert(r@ =~= archive_path@ + zip_marker() + cwd@);
                }
                r
            },
        }
    }
}

/// The scrolling invariant, spelled out: whenever a panel's window is in
/// order and it has entries, the cursor names a real entry and lies between
/// the window's first and last visible row, and the window itself stays
/// inside the listing.  Every command that moves the cursor, grows the
/// listing or scrolls re-establishes `window_ok`, so this holds after any
/// such sequence.
pub proof fn lemma_window_invariant(p: PanelState, rows: int)
    requires
        rows >= 1,
        p.window_ok(rows),
        p.len() > 0,
    ensures
        p.selected_index < p.len(),
        p.top_index <= p.selected_index,
        p.selected_index <= p.top_index + rows - 1,
        p.top_index <= max_top(p.len(), rows),
{
}

/// The separator between an archive path and the inner path in a display
/// path: `::zip:/`.
pub open spec fn zip_marker() -> Seq<u8> {
    seq![0x3au8, 0x3au8, 0x7au8, 0x69u8, 0x70u8, 0x3au8, 0x2fu8]
}

/// What a panel header shows for a location.
pub open spec fn display_path_spec(current_path: Seq<u8>, mode: PanelModeView) -> Seq<u8> {
    match mode {
        PanelModeView::Fs => current_path,
        PanelModeView::Zip { archive_path, cwd } => archive_path + zip_marker() + cwd,
    }
}

} // verus!
