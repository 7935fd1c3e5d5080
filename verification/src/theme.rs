//! Theme selection state: the built-in dark/light pair and the names of any
//! externally loaded themes.  Colors themselves are presentation data and
//! live with the shell, keyed by the same indices.

use vstd::prelude::*;
use crate::bytes::names_view;

verus! {

/// The two built-in themes.
#[derive(Clone, Copy, Debug, PartialEq, Eq, Structural)]
pub enum ThemeKind {
    Dark,
    Light,
}

/// The current theme choice.
pub struct Theme {
    pub kind: ThemeKind,
    /// Names of the externally loaded themes, in load order.
    pub external: Vec<Vec<u8>>,
    /// Which external theme is active, if any.
    pub selected_external: Option<usize>,
}

impl Theme {
    /// The selected index, when present, names a loaded theme.
    pub open spec fn wf(&self) -> bool {
        match self.selected_external {
            Some(i) => i < self.external@.len(),
            None => true,
        }
    }

    /// The built-in dark theme, no externals loaded.
    pub fn dark() -> (r: Self)
        ensures
            r.kind == ThemeKind::Dark,
            r.external@.len() == 0,
            r.selected_external is None,
            r.wf(),
    {
        Theme { kind: ThemeKind::Dark, external: Vec::new(), selected_external: None }
    }

    /// The built-in light theme, no externals loaded.
    pub fn light() -> (r: Self)
        ensures
            r.kind == ThemeKind::Light,
            r.external@.len() == 0,
            r.selected_external is None,
            r.wf(),
    {
        Theme { kind: ThemeKind::Light, external: Vec::new(), selected_external: None }
    }

    /// Installs the loaded external themes; the first becomes active when
    /// any exist.
    pub fn set_external(&mut self, themes: Vec<Vec<u8>>)
        ensures
            final(self).kind == old(self).kind,
            names_view(final(self).external@) == names_view(themes@),
            final(self).selected_external == (if themes@.len() == 0 {
                Option::<usize>::None
            } else {
                Option::<usize>::Some(0usize)
            }),
            final(self).wf(),
    {
        self.external = themes;
        self.selected_external = if self.external.len() == 0 {
            None
        } else {
            Some(0)
        };
    }

    /// Advances to the next external theme when externals exist; otherwise
    /// flips between dark and light.
    pub fn toggle(&mut self)
        requires
            old(self).wf(),
        ensures
            final(self).external@ == old(self).external@,
            final(self).wf(),
            old(self).external@.len() > 0 ==> ({
                &&& final(self).kind == old(self).kind
                &&& final(self).selected_external == Some(
                    (match old(self).selected_external {
                        None => 0int,
                        Some(i) => (i + 1) % (old(self).external@.len() as int),
                    }) as usize,
                )
            }),
            old(self).external@.len() == 0 ==> ({
                &&& final(self).selected_external == old(self).selected_external
                &&& final(self).kind == (match old(self).kind {
                    ThemeKind::Dark => ThemeKind::Light,
                    ThemeKind::Light => ThemeKind::Dark,
                })
            }),
    {
        if self.external.len() > 0 {
            let len = self.external.len();
            let next = match self.selected_external {
                None => 0,
                Some(i) => (i + 1) % len,
            };
            self.selected_external = Some(next);
            return;
        }
        self.kind = match self.kind {
            ThemeKind::Dark => ThemeKind::Light,
            ThemeKind::Light => ThemeKind::Dark,
        };
    }

    /// The names offered by the theme picker: the built-in pair when no
    /// externals are loaded, the external names otherwise.
    pub fn theme_names(&self) -> (r: Vec<Vec<u8>>)
        ensures
            self.external@.len() == 0 ==> names_view(r@) =~= seq![
                seq![0x44u8, 0x61u8, 0x72u8, 0x6bu8],
                seq![0x4cu8, 0x69u8, 0x67u8, 0x68u8, 0x74u8],
            ],
            self.external@.len() > 0 ==> names_view(r@) == names_view(self.external@),
    {
        if self.external.len() == 0 {
            let mut dark: Vec<u8> = Vec::new();
            dark.push(0x44);
            dark.push(0x61);
            dark.push(0x72);
            dark.push(0x6b);
            let mut light: Vec<u8> = Vec::new();
            light.push(0x4c);
            light.push(0x69);
            light.push(0x67);
            light.push(0x68);
            light.push(0x74);
            proof {
                assert(dark@ =~= seq![0x44u8, 0x61u8, 0x72u8, 0x6bu8]);
                assert(light@ =~= seq![0x4cu8, 0x69u8, 0x67u8, 0x68u8, 0x74u8]);
            }
            let mut r: Vec<Vec<u8>> = Vec::new();
            r.push(dark);
            r.push(light);
            proof {
                assert(names_view(r@).len() == 2);
                assert(names_view(r@)[0] == r@[0]@);
                assert(names_view(r@)[1] == r@[1]@);
            }
            r
        } else {
            let n = self.external.len();
            let mut r: Vec<Vec<u8>> = Vec::new();
            let mut i: usize = 0;
            while i < n
                invariant
                    i <= n,
                    n == self.external@.len(),
                    r@.len() == i,
                    forall|k: int| 0 <= k < i ==> names_view(r@)[k] == names_view(self.external@)[k],
                decreases n - i,
            {
                let ghost r0 = r@;
                r.push(crate::bytes::copy_bytes(self.external[i].as_slice()));
                proof {
                    assert forall|k: int| 0 <= k < i + 1 implies names_view(r@)[k] == names_view(
                        self.external@,
                    )[k] by {
                        assert(names_view(r@)[k] == r@[k]@);
                        assert(names_view(self.external@)[k] == self.external@[k]@);
                        if k < i {
                            assert(r@[k] == r0[k]);
                            assert(names_view(r0)[k] == r0[k]@);
                        }
                    }
                }
                i += 1;
            }
            proof {
                assert(names_view(r@) =~= names_view(self.external@));
            }
            r
        }
    }
}

} // verus!
