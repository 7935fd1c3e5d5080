//! Selection memory: for every visited location the name that was highlighted
//! last, so the cursor can be restored on revisit.  A location key is a
//! filesystem path (secondary key empty) or an archive path plus inner path.

use vstd::prelude::*;
use crate::bytes::{bytes_eq, copy_bytes};

verus! {

/// One remembered selection.
pub struct MemoryEntry {
    pub key_a: Vec<u8>,
    pub key_b: Vec<u8>,
    pub name: Vec<u8>,
}

/// First remembered name for the key, scanning from the front.
pub open spec fn memory_lookup(items: Seq<MemoryEntry>, a: Seq<u8>, b: Seq<u8>) -> Option<Seq<u8>>
    decreases items.len(),
{
    if items.len() == 0 {
        None
    } else if items[0].key_a@ == a && items[0].key_b@ == b {
        Some(items[0].name@)
    } else {
        memory_lookup(items.drop_first(), a, b)
    }
}

/// Removing an entry with a different key leaves every lookup unchanged.
proof fn lemma_lookup_remove(items: Seq<MemoryEntry>, i: int, a: Seq<u8>, b: Seq<u8>)
    requires
        0 <= i < items.len(),
        !(items[i].key_a@ == a && items[i].key_b@ == b),
    ensures
        memory_lookup(items.remove(i), a, b) == memory_lookup(items, a, b),
    decreases items.len(),
{
    if i == 0 {
        assert(items.remove(0) =~= items.drop_first());
    } else {
        assert(items.remove(i)[0] == items[0]);
        if !(items[0].key_a@ == a && items[0].key_b@ == b) {
            lemma_lookup_remove(items.drop_first(), i - 1, a, b);
            assert(items.remove(i).drop_first() =~= items.drop_first().remove(i - 1));
        }
    }
}

/// Position of the entry for a key, if one exists.
fn find_key(items: &Vec<MemoryEntry>, a: &[u8], b: &[u8]) -> (r: Option<usize>)
    ensures
        match r {
            Some(j) => j < items@.len() && items@[j as int].key_a@ == a@ && items@[
                j as int
            ].key_b@ == b@,
            None => forall|k: int|
                0 <= k < items@.len() ==> !((#[trigger] items@[k]).key_a@ == a@
                    && items@[k].key_b@ == b@),
        },
{
    let n = items.len();
    let mut i: usize = 0;
    while i < n
        invariant
            i <= n,
            n == items@.len(),
            forall|k: int|
                0 <= k < i ==> !((#[trigger] items@[k]).key_a@ == a@ && items@[k].key_b@ == b@),
        decreases n - i,
    {
        let e = &items[i];
        if bytes_eq(e.key_a.as_slice(), a) && bytes_eq(e.key_b.as_slice(), b) {
            return Some(i);
        }
        i += 1;
    }
    None
}

/// The per-location memory of last-selected names.
pub struct SelectionMemory {
    pub items: Vec<MemoryEntry>,
}

impl SelectionMemory {
    /// What this memory remembers for a location key.
    pub open spec fn spec_lookup(&self, a: Seq<u8>, b: Seq<u8>) -> Option<Seq<u8>> {
        memory_lookup(self.items@, a, b)
    }

    /// An empty memory: no location has a remembered name.
    pub fn new() -> (r: Self)
        ensures
            forall|a: Seq<u8>, b: Seq<u8>| r.spec_lookup(a, b) is None,
    {
        SelectionMemory { items: Vec::new() }
    }

    /// The remembered name for a key, if any.
    pub fn lookup(&self, a: &[u8], b: &[u8]) -> (r: Option<Vec<u8>>)
        ensures
            r.deep_view() == self.spec_lookup(a@, b@),
    {
        let n = self.items.len();
        let mut i: usize = 0;
        proof {
            assert(self.items@.skip(0) =~= self.items@);
        }
        while i < n
            invariant
                i <= n,
                n == self.items@.len(),
                memory_lookup(self.items@.skip(i as int), a@, b@) == memory_lookup(
                    self.items@,
                    a@,
                    b@,
                ),
                forall|k: int|
                    0 <= k < i ==> !((#[trigger] self.items@[k]).key_a@ == a@
                        && self.items@[k].key_b@ == b@),
            decreases n - i,
        {
            let e = &self.items[i];
            if bytes_eq(e.key_a.as_slice(), a) && bytes_eq(e.key_b.as_slice(), b) {
                let r = copy_bytes(e.name.as_slice());
                proof {
                    assert(self.items@.skip(i as int)[0] == self.items@[i as int]);
                    assert(r.deep_view() =~= r@);
                }
                return Some(r);
            }
            proof {
                let s = self.items@.skip(i as int);
                assert(s[0] == self.items@[i as int]);
                assert(s.drop_first() =~= self.items@.skip(i + 1));
            }
            i += 1;
        }
        proof {
            assert(self.items@.skip(n as int) =~= Seq::<MemoryEntry>::empty());
        }
        None
    }

    /// Records the name for a key, replacing what was remembered before.
    pub fn insert(&mut self, a: Vec<u8>, b: Vec<u8>, name: Vec<u8>)
        ensures
            forall|x: Seq<u8>, y: Seq<u8>|
                final(self).spec_lookup(x, y) == (if x == a@ && y == b@ {
                    Some(name@)
                } else {
                    old(self).spec_lookup(x, y)
                }),
    {
        let ghost s0 = self.items@;
        let found = find_key(&self.items, a.as_slice(), b.as_slice());
        if let Some(j) = found {
            let _ = self.items.remove(j);
            proof {
                assert forall|x: Seq<u8>, y: Seq<u8>| !(x == a@ && y == b@) implies memory_lookup(
                    self.items@,
                    x,
                    y,
                ) == memory_lookup(s0, x, y) by {
                    lemma_lookup_remove(s0, j as int, x, y);
                }
            }
        }
        let ghost s2 = self.items@;
        self.items.insert(0, MemoryEntry { key_a: a, key_b: b, name });
        proof {
            assert(self.items@.drop_first() =~= s2);
            assert forall|x: Seq<u8>, y: Seq<u8>| true implies memory_lookup(self.items@, x, y)
                == (if x == a@ && y == b@ {
                Some(name@)
            } else {
                memory_lookup(s0, x, y)
            }) by {
                if !(x == a@ && y == b@) {
                    assert(memory_lookup(self.items@, x, y) == memory_lookup(s2, x, y));
                }
            }
        }
    }
}

} // verus!
