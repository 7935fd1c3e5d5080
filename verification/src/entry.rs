//! The unified location/entry model: every row a panel shows is an `DirEntry`
//! whose `EntryLocation` names either a real filesystem path or a member of a
//! zip archive.

use vstd::prelude::*;

verus! {

/// Backend-tagged address of an item.  For `Zip`, `inner_path` has no leading
/// separator and the empty string means the archive root.
pub enum EntryLocation {
    Fs { path: Vec<u8> },
    Zip { archive_path: Vec<u8>, inner_path: Vec<u8> },
}

/// Mathematical value of an `EntryLocation`.
pub ghost enum LocationView {
    Fs { path: Seq<u8> },
    Zip { archive_path: Seq<u8>, inner_path: Seq<u8> },
}

impl View for EntryLocation {
    type V = LocationView;

    open spec fn view(&self) -> LocationView {
        match self {
            EntryLocation::Fs { path } => LocationView::Fs { path: path@ },
            EntryLocation::Zip { archive_path, inner_path } => LocationView::Zip {
                archive_path: archive_path@,
                inner_path: inner_path@,
            },
        }
    }
}

impl DeepView for EntryLocation {
    type V = LocationView;

    open spec fn deep_view(&self) -> LocationView {
        self.view()
    }
}

/// One addressable row of a listing, immutable once built.
pub struct DirEntry {
    pub name: Vec<u8>,
    pub is_dir: bool,
    pub location: EntryLocation,
}

/// Mathematical value of a `DirEntry`.
pub ghost struct EntryView {
    pub name: Seq<u8>,
    pub is_dir: bool,
    pub location: LocationView,
}

impl View for DirEntry {
    type V = EntryView;

    open spec fn view(&self) -> EntryView {
        EntryView { name: self.name@, is_dir: self.is_dir, location: self.location@ }
    }
}

impl DeepView for DirEntry {
    type V = EntryView;

    open spec fn deep_view(&self) -> EntryView {
        self.view()
    }
}

/// Which of the two panels a command refers to.
#[derive(Clone, Copy, Debug, PartialEq, Eq, Structural)]
pub enum ActivePanel {
    Left,
    Right,
}

/// The backend a panel is currently browsing.
pub enum PanelMode {
    Fs,
    Zip { archive_path: Vec<u8>, cwd: Vec<u8> },
}

/// Mathematical value of a `PanelMode`.
pub ghost enum PanelModeView {
    Fs,
    Zip { archive_path: Seq<u8>, cwd: Seq<u8> },
}

impl View for PanelMode {
    type V = PanelModeView;

    open spec fn view(&self) -> PanelModeView {
        match self {
            PanelMode::Fs => PanelModeView::Fs,
            PanelMode::Zip { archive_path, cwd } => PanelModeView::Zip {
                archive_path: archive_path@,
                cwd: cwd@,
            },
        }
    }
}

impl DeepView for PanelMode {
    type V = PanelModeView;

    open spec fn deep_view(&self) -> PanelModeView {
        self.view()
    }
}

/// The name of the synthetic parent row.
pub open spec fn dotdot_name() -> Seq<u8> {
    seq![0x2eu8, 0x2eu8]
}

/// Builds the byte string `".."`.
pub fn dotdot() -> (r: Vec<u8>)
    ensures
        r@ == dotdot_name(),
{
    let mut r: Vec<u8> = Vec::new();
    r.push(0x2e);
    r.push(0x2e);
    proof {
        assert(r@ =~= dotdot_name());
    }
    r
}

/// A fresh value equal to the given location.
pub fn copy_location(l: &EntryLocation) -> (r: EntryLocation)
    ensures
        r@ == l@,
{
    match l {
        EntryLocation::Fs { path } => EntryLocation::Fs {
            path: crate::bytes::copy_bytes(path.as_slice()),
        },
        EntryLocation::Zip { archive_path, inner_path } => EntryLocation::Zip {
            archive_path: crate::bytes::copy_bytes(archive_path.as_slice()),
            inner_path: crate::bytes::copy_bytes(inner_path.as_slice()),
        },
    }
}

/// A fresh value equal to the given entry.
pub fn copy_entry(e: &DirEntry) -> (r: DirEntry)
    ensures
        r@ == e@,
{
    DirEntry {
        name: crate::bytes::copy_bytes(e.name.as_slice()),
        is_dir: e.is_dir,
        location: copy_location(&e.location),
    }
}

} // verus!
