//! Streaming enumeration support: a navigation shows a fast first page and
//! then receives the rest in bounded batches, in order, with no entry lost
//! or repeated.  The shell owns the queue; these helpers carve listings into
//! batches and prove that the batches reassemble the listing.

use vstd::prelude::*;
use crate::entry::{DirEntry, EntryView, dotdot_name, copy_entry};
use crate::listing::entries_view;

verus! {

/// All entries of a batch list, in delivery order.
pub open spec fn flatten_batches(bs: Seq<Vec<DirEntry>>) -> Seq<EntryView>
    decreases bs.len(),
{
    if bs.len() == 0 {
        Seq::empty()
    } else {
        entries_view(bs[0]@) + flatten_batches(bs.drop_first())
    }
}

/// Delivering one more batch appends its entries.
pub proof fn lemma_flatten_push(bs: Seq<Vec<DirEntry>>, b: Vec<DirEntry>)
    ensures
        flatten_batches(bs.push(b)) == flatten_batches(bs) + entries_view(b@),
    decreases bs.len(),
{
    if bs.len() == 0 {
        assert(bs.push(b).drop_first() =~= Seq::<Vec<DirEntry>>::empty());
        assert(bs.push(b)[0] == b);
        assert(flatten_batches(Seq::<Vec<DirEntry>>::empty()) == Seq::<EntryView>::empty());
        assert(flatten_batches(bs) == Seq::<EntryView>::empty());
        assert(flatten_batches(bs.push(b)) =~= flatten_batches(bs) + entries_view(b@));
    } else {
        lemma_flatten_push(bs.drop_first(), b);
        assert(bs.push(b).drop_first() =~= bs.drop_first().push(b));
        assert(bs.push(b)[0] == bs[0]);
        assert(flatten_batches(bs.push(b)) =~= flatten_batches(bs) + entries_view(b@));
    }
}

/// The part of a full listing that is streamed: everything after the
/// placeholder parent row, which the panel already shows.
pub open spec fn stream_body(src: Seq<EntryView>) -> Seq<EntryView> {
    if src.len() > 0 && src[0].name == dotdot_name() {
        src.drop_first()
    } else {
        src
    }
}

/// Carves a fully computed listing into delivery batches: a bounded first
/// page, then bounded chunks, preserving order and entries exactly.  Used
/// for archive listings, which must be computed up front.
pub fn plan_batches(all: &Vec<DirEntry>, first_page: usize, chunk: usize) -> (r: Vec<Vec<DirEntry>>)
    requires
        first_page >= 1,
        chunk >= 1,
    ensures
        flatten_batches(r@) == stream_body(entries_view(all@)),
        forall|k: int| 0 <= k < r@.len() ==> (#[trigger] r@[k])@.len() >= 1,
        r@.len() > 0 ==> r@[0]@.len() <= first_page as int,
        forall|k: int| 1 <= k < r@.len() ==> (#[trigger] r@[k])@.len() <= chunk as int,
    {
    let ghost src = entries_view(all@);
    let ghost body = stream_body(src);
    let n = all.len();
    let start: usize = if n > 0 && crate::bytes::bytes_eq(
        all[0].name.as_slice(),
        crate::entry::dotdot().as_slice(),
    ) {
        1
    } else {
        0
    };
    proof {
        if start == 1 {
            assert(body =~= src.skip(1));
        } else {
            assert(body =~= src.skip(0));
        }
    }
    let mut r: Vec<Vec<DirEntry>> = Vec::new();
    let mut i: usize = start;
    let mut limit = if first_page > n - start {
        n
    } else {
        start + first_page
    };
    while i < n
        invariant
            first_page >= 1,
            chunk >= 1,
            start <= i <= n,
            n == all@.len(),
            src == entries_view(all@),
            body == stream_body(src),
            body =~= src.skip(start as int),
            i <= limit <= n,
            i < n ==> i < limit,
            flatten_batches(r@) == body.take(i - start),
            r@.len() == 0 ==> i == start,
            forall|k: int| 0 <= k < r@.len() ==> (#[trigger] r@[k])@.len() >= 1,
            r@.len() > 0 ==> r@[0]@.len() <= first_page as int,
            forall|k: int| 1 <= k < r@.len() ==> (#[trigger] r@[k])@.len() <= chunk as int,
            i > start ==> r@.len() > 0,
            limit - i <= (if r@.len() == 0 {
                first_page as int
            } else {
                chunk as int
            }),
        decreases n - i,
    {
        let mut batch: Vec<DirEntry> = Vec::new();
        let batch_start = i;
        while i < limit
            invariant
                batch_start <= i <= limit <= n,
                n == all@.len(),
                src == entries_view(all@),
                entries_view(batch@) =~= src.subrange(batch_start as int, i as int),
                batch@.len() == i - batch_start,
            decreases limit - i,
        {
            let e = copy_entry(&all[i]);
            batch.push(e);
            proof {
                assert(entries_view(batch@) =~= src.subrange(batch_start as int, i + 1));
            }
            i += 1;
        }
        if batch.len() > 0 {
            proof {
                lemma_flatten_push(r@, batch);
                assert(body.take(batch_start - start) + src.subrange(
                    batch_start as int,
                    i as int,
                ) =~= body.take(i - start));
            }
            r.push(batch);
        }
        limit = if chunk > n - i {
            n
        } else {
            i + chunk
        };
    }
    proof {
        assert(body.take(n - start) =~= body);
    }
    r
}

/// Buffers entries as a live enumeration produces them and emits a full
/// batch whenever the bound is reached.  The entries emitted so far plus
/// the buffered ones are exactly the entries accepted, in order.
pub struct Chunker {
    pub chunk_size: usize,
    pub buf: Vec<DirEntry>,
    /// All entries accepted so far.
    pub accepted: Ghost<Seq<EntryView>>,
    /// All entries already emitted in batches.
    pub emitted: Ghost<Seq<EntryView>>,
}

impl Chunker {
    /// Nothing lost, nothing repeated: what came in is what was emitted
    /// plus what is still buffered, and the buffer is below the bound.
    pub open spec fn wf(&self) -> bool {
        &&& self.emitted@ + entries_view(self.buf@) == self.accepted@
        &&& self.chunk_size >= 1
        &&& self.buf@.len() < self.chunk_size
    }

    /// The batch bound.
    pub open spec fn spec_chunk_size(&self) -> int {
        self.chunk_size as int
    }

    /// A fresh chunker with the given batch bound.
    pub fn new(chunk_size: usize) -> (r: Self)
        requires
            chunk_size >= 1,
        ensures
            r.wf(),
            r.accepted@ == Seq::<EntryView>::empty(),
            r.emitted@ == Seq::<EntryView>::empty(),
            r.spec_chunk_size() == chunk_size as int,
    {
        let r = Chunker {
            chunk_size,
            buf: Vec::new(),
            accepted: Ghost(Seq::empty()),
            emitted: Ghost(Seq::empty()),
        };
        proof {
            assert(r.emitted@ + entries_view(r.buf@) =~= r.accepted@);
        }
        r
    }

    /// Accepts one entry; hands back a full batch when the bound is
    /// reached.
    pub fn push(&mut self, e: DirEntry) -> (r: Option<Vec<DirEntry>>)
        requires
            old(self).wf(),
        ensures
            final(self).wf(),
            final(self).spec_chunk_size() == old(self).spec_chunk_size(),
            final(self).accepted@ == old(self).accepted@.push(e@),
            match r {
                Some(b) => {
                    &&& entries_view(b@).len() == old(self).spec_chunk_size()
                    &&& final(self).emitted@ == old(self).emitted@ + entries_view(b@)
                    &&& final(self).emitted@ == final(self).accepted@
                },
                None => final(self).emitted@ == old(self).emitted@,
            },
    {
        let ghost e_view = e@;
        self.buf.push(e);
        proof {
            self.accepted@ = self.accepted@.push(e_view);
            assert(entries_view(self.buf@) =~= entries_view(old(self).buf@).push(e_view));
            assert(self.emitted@ + entries_view(self.buf@) =~= self.accepted@);
        }
        if self.buf.len() >= self.chunk_size {
            let mut b: Vec<DirEntry> = Vec::new();
            core::mem::swap(&mut b, &mut self.buf);
            proof {
                self.emitted@ = self.emitted@ + entries_view(b@);
                assert(entries_view(self.buf@) =~= Seq::<EntryView>::empty());
                assert(self.emitted@ + entries_view(self.buf@) =~= self.emitted@);
            }
            Some(b)
        } else {
            None
        }
    }

    /// Hands back whatever is still buffered when the enumeration ends.
    pub fn finish(&mut self) -> (r: Option<Vec<DirEntry>>)
        requires
            old(self).wf(),
        ensures
            final(self).wf(),
            final(self).spec_chunk_size() == old(self).spec_chunk_size(),
            final(self).accepted@ == old(self).accepted@,
            final(self).emitted@ == final(self).accepted@,
            match r {
                Some(b) => entries_view(b@).len() >= 1 && final(self).emitted@ == old(
                    self,
                ).emitted@ + entries_view(b@),
                None => final(self).emitted@ == old(self).emitted@,
            },
    {
        if self.buf.len() == 0 {
            proof {
                assert(entries_view(self.buf@) =~= Seq::<EntryView>::empty());
                assert(self.emitted@ =~= self.accepted@);
            }
            return None;
        }
        let mut b: Vec<DirEntry> = Vec::new();
        core::mem::swap(&mut b, &mut self.buf);
        proof {
            self.emitted@ = self.emitted@ + entries_view(b@);
            assert(entries_view(self.buf@) =~= Seq::<EntryView>::empty());
            assert(self.emitted@ + entries_view(self.buf@) =~= self.emitted@);
        }
        Some(b)
    }
}

} // verus!
