//! A memory delegate that gathers blocks into one page of 2048 bytes at a
//! time. Blocks that arrive ahead of the page wait in a queue of eight.

use crate::bounded::{
    block_from_slice,
    queue_block,
    queue_insert,
    queue_len,
    queue_new,
    queue_offset,
    queue_place,
    queue_remove,
    queued_blocks,
    BlockQueue,
};
use crate::ota::consumer::OtaMemoryDelegate;
use vstd::prelude::*;

verus! {

/// Bytes in one page.
pub const PAGE_SIZE: usize = 2048;

/// One page of the image while it fills.
pub struct OtaPage {
    pub buffer: [u8; 2048],
    /// Where the latest block ended, counted from the start of the page.
    pub last_address: usize,
    /// The image offset of the page.
    pub address: usize,
}

/// A page as a mathematical value.
pub struct OtaPageView {
    pub buffer: Seq<u8>,
    pub last_address: usize,
    pub address: usize,
}

impl View for OtaPage {
    type V = OtaPageView;

    open spec fn view(&self) -> OtaPageView {
        OtaPageView {
            buffer: self.buffer@,
            last_address: self.last_address,
            address: self.address,
        }
    }
}

impl OtaPageView {
    /// A page of zeroes at `address`.
    pub open spec fn blank(address: usize) -> OtaPageView {
        OtaPageView { buffer: Seq::new(2048, |i: int| 0u8), last_address: 0, address }
    }

    /// Whether the page takes `len` bytes at image offset `offset`: the
    /// latest block did not end at the end of the page, and the bytes lie
    /// within the page.
    pub open spec fn takes(self, offset: usize, len: nat) -> bool {
        &&& self.last_address != 2048
        &&& offset >= self.address
        &&& offset - self.address + len <= 2048
    }

    /// The page after `data` has been offered at image offset `offset`.
    pub open spec fn written(self, offset: usize, data: Seq<u8>) -> OtaPageView {
        if self.takes(offset, data.len()) {
            let start = offset - self.address;
            OtaPageView {
                buffer: self.buffer.take(start) + data + self.buffer.skip(start + data.len()),
                last_address: (start + data.len()) as usize,
                address: self.address,
            }
        } else {
            self
        }
    }
}

impl OtaPage {
    /// A page of zeroes at `address`.
    pub fn new(address: usize) -> (page: OtaPage)
        ensures
            page@ == OtaPageView::blank(address),
    {
        let page = OtaPage { buffer: [0u8;2048], last_address: 0, address };
        assert(page.buffer@ =~= Seq::new(2048, |i: int| 0u8));
        page
    }

    /// Offers `data` for image offset `offset`, which is not in front of the
    /// page, and says whether the page took it.
    pub fn write(&mut self, offset: usize, data: &[u8]) -> (taken: bool)
        requires
            offset >= old(self).address,
        ensures
            taken == old(self)@.takes(offset, data@.len()),
            final(self)@ == old(self)@.written(offset, data@),
    {
        if self.last_address != PAGE_SIZE {
            let start = offset - self.address;
            if start > PAGE_SIZE || data.len() > PAGE_SIZE - start {
                return false;
            }
            let end = start + data.len();
            let mut i: usize = 0;
            while i < data.len()
                invariant
                    i <= data@.len(),
                    start + data@.len() <= 2048,
                    self.address == old(self).address,
                    self.last_address == old(self).last_address,
                    self.buffer@ == old(self).buffer@.take(start as int) + data@.take(i as int)
                        + old(self).buffer@.skip(start + i),
                decreases data.len() - i,
            {
                self.buffer[start + i] = data[i];
                assert(self.buffer@ =~= old(self).buffer@.take(start as int) + data@.take(i + 1)
                    + old(self).buffer@.skip(start + i + 1));
                i = i + 1;
            }
            assert(data@.take(i as int) =~= data@);
            self.last_address = end;
            true
        } else {
            false
        }
    }
}

/// Whether a queued block for `offset` is due when the page stands at
/// `page_address`: it lies in the page or in front of it.
pub open spec fn due(offset: usize, page_address: usize) -> bool {
    offset < page_address + 2048
}

/// The page after the queued blocks that lie in it have been offered to it,
/// in the order of the queue.
pub open spec fn drained(page: OtaPageView, entries: Seq<(usize, Seq<u8>)>) -> OtaPageView
    decreases entries.len(),
{
    if entries.len() == 0 {
        page
    } else {
        let before = drained(page, entries.drop_last());
        if entries.last().0 >= page.address && due(entries.last().0, page.address) {
            before.written(entries.last().0, entries.last().1)
        } else {
            before
        }
    }
}

/// The offsets of the queued blocks that are due, in the order of the queue.
pub open spec fn due_offsets(page_address: usize, entries: Seq<(usize, Seq<u8>)>) -> Seq<usize>
    decreases entries.len(),
{
    if entries.len() == 0 {
        Seq::<usize>::empty()
    } else if due(entries.last().0, page_address) {
        due_offsets(page_address, entries.drop_last()).push(entries.last().0)
    } else {
        due_offsets(page_address, entries.drop_last())
    }
}

/// The queue without the entry for `offset`: the last entry takes the place
/// of the one that leaves.
pub open spec fn without(entries: Seq<(usize, Seq<u8>)>, offset: usize) -> Seq<(usize, Seq<u8>)> {
    if queue_place(entries, offset) < entries.len() {
        entries.update(queue_place(entries, offset), entries.last()).drop_last()
    } else {
        entries
    }
}

/// The queue after the entries for `offsets` have been taken out, one after
/// the other.
pub open spec fn without_all(entries: Seq<(usize, Seq<u8>)>, offsets: Seq<usize>) -> Seq<
    (usize, Seq<u8>),
>
    decreases offsets.len(),
{
    if offsets.len() == 0 {
        entries
    } else {
        without(without_all(entries, offsets.drop_last()), offsets.last())
    }
}

/// Whether the queue takes a block for `offset`: it holds one for that
/// offset, which the new one replaces, or it holds fewer than eight.
pub open spec fn queue_takes(entries: Seq<(usize, Seq<u8>)>, offset: usize) -> bool {
    queue_place(entries, offset) < entries.len() || entries.len() < 8
}

/// The queue after a block has been offered to it.
pub open spec fn queued(entries: Seq<(usize, Seq<u8>)>, offset: usize, data: Seq<u8>) -> Seq<
    (usize, Seq<u8>),
> {
    if queue_place(entries, offset) < entries.len() {
        entries.update(queue_place(entries, offset), (offset, data))
    } else if entries.len() < 8 {
        entries.push((offset, data))
    } else {
        entries
    }
}

/// The delegate as a mathematical value.
pub struct OtaMemoryView {
    /// The page that is filling, if one has been begun.
    pub page: Option<OtaPageView>,
    /// The blocks that wait for a later page.
    pub queue: Seq<(usize, Seq<u8>)>,
    /// The image offset at which the next page is begun.
    pub next_address: usize,
    /// The number of bytes that the consumer holds to be written without a
    /// gap, as the latest write gave it.
    pub valid_up_to_address: usize,
}

impl OtaMemoryView {
    /// The page that a write works on: the one that is filling, or a blank
    /// one at `next_address`.
    pub open spec fn working_page(self) -> OtaPageView {
        match self.page {
            Some(page) => page,
            None => OtaPageView::blank(self.next_address),
        }
    }

    /// The page once the due blocks of the queue have been offered to it.
    pub open spec fn settled_page(self) -> OtaPageView {
        drained(self.working_page(), self.queue)
    }

    /// The queue once the due blocks have left it.
    pub open spec fn settled_queue(self) -> Seq<(usize, Seq<u8>)> {
        without_all(self.queue, due_offsets(self.working_page().address, self.queue))
    }

    /// Whether a write of `data` at `offset` is accepted: the block lies in
    /// front of the page and is passed over, or the page takes it, or the
    /// queue does.
    pub open spec fn accepts(self, offset: usize, data: Seq<u8>) -> bool {
        offset < self.working_page().address || self.settled_page().takes(offset, data.len()) || (
        data.len() <= 96 && queue_takes(self.settled_queue(), offset))
    }

    /// The delegate after a write.
    pub open spec fn written(self, valid_up_to: usize, offset: usize, data: Seq<u8>)
        -> OtaMemoryView {
        if offset < self.working_page().address {
            OtaMemoryView {
                page: Some(self.settled_page()),
                queue: self.settled_queue(),
                next_address: self.next_address,
                valid_up_to_address: valid_up_to,
            }
        } else if self.settled_page().takes(offset, data.len()) {
            OtaMemoryView {
                page: Some(self.settled_page().written(offset, data)),
                queue: self.settled_queue(),
                next_address: self.next_address,
                valid_up_to_address: valid_up_to,
            }
        } else {
            OtaMemoryView {
                page: Some(self.settled_page()),
                queue: if data.len() <= 96 {
                    queued(self.settled_queue(), offset, data)
                } else {
                    self.settled_queue()
                },
                next_address: self.next_address,
                valid_up_to_address: valid_up_to,
            }
        }
    }

    /// Whether the page is ready to be committed: its latest block ended at
    /// its end, and the consumer holds the image to be written up to the end
    /// of the page.
    pub open spec fn page_ready(self) -> bool {
        self.page is Some && self.page->Some_0.last_address == 2048 && self.valid_up_to_address
            >= self.page->Some_0.address + 2048
    }
}

/// A memory delegate that gathers blocks into one page at a time.
pub struct OtaMemory {
    page: Option<OtaPage>,
    queue: BlockQueue,
    next_address: usize,
    valid_up_to_address: usize,
}

impl View for OtaMemory {
    type V = OtaMemoryView;

    closed spec fn view(&self) -> OtaMemoryView {
        OtaMemoryView {
            page: match self.page {
                Some(page) => Some(page@),
                None => None,
            },
            queue: queued_blocks(self.queue),
            next_address: self.next_address,
            valid_up_to_address: self.valid_up_to_address,
        }
    }
}

impl OtaMemoryDelegate for OtaMemory {
    /// Offers the queued blocks that are due to the page, then the new
    /// block: to the page, and, where the page does not take it, to the
    /// queue.
    fn write(&mut self, valid_up_to: usize, offset: usize, data: &[u8]) -> (accepted: bool)
        ensures
            final(self)@ == old(self)@.written(valid_up_to, offset, data@),
            accepted == old(self)@.accepts(offset, data@),
    {
        self.valid_up_to_address = valid_up_to;
        let mut page = match self.page.take() {
            Some(page) => page,
            None => OtaPage::new(self.next_address),
        };
        let ghost entries = queued_blocks(self.queue);
        let ghost start_page = page@;
        let n = queue_len(&self.queue);
        let mut to_pop: Vec<usize> = Vec::new();
        let mut i: usize = 0;
        while i < n
            invariant
                i <= n,
                n == entries.len(),
                entries == queued_blocks(self.queue),
                self.next_address == old(self).next_address,
                self.valid_up_to_address == valid_up_to,
                page@ == drained(start_page, entries.take(i as int)),
                page@.address == start_page.address,
                to_pop@ == due_offsets(start_page.address, entries.take(i as int)),
            decreases n - i,
        {
            proof {
                assert(entries.take(i + 1).drop_last() =~= entries.take(i as int));
            }
            let a = queue_offset(&self.queue, i);
            if a < page.address {
                to_pop.push(a);
            } else if a - page.address < PAGE_SIZE {
                page.write(a, queue_block(&self.queue, i));
                to_pop.push(a);
            }
            i = i + 1;
        }
        proof {
            assert(entries.take(i as int) =~= entries);
        }
        let mut k: usize = 0;
        while k < to_pop.len()
            invariant
                k <= to_pop@.len(),
                queued_blocks(self.queue) == without_all(entries, to_pop@.take(k as int)),
                self.next_address == old(self).next_address,
                self.valid_up_to_address == valid_up_to,
            decreases to_pop.len() - k,
        {
            proof {
                assert(to_pop@.take(k + 1).drop_last() =~= to_pop@.take(k as int));
            }
            queue_remove(&mut self.queue, to_pop[k]);
            k = k + 1;
        }
        proof {
            assert(to_pop@.take(k as int) =~= to_pop@);
        }
        let accepted = if offset < page.address {
            true
        } else if page.write(offset, data) {
            true
        } else {
            match block_from_slice(data) {
                Some(block) => queue_insert(&mut self.queue, offset, block),
                None => false,
            }
        };
        self.page = Some(page);
        accepted
    }
}

impl OtaMemory {
    /// A delegate that has not begun a page.
    pub fn new() -> (memory: OtaMemory)
        ensures
            memory@ == (OtaMemoryView {
                page: None,
                queue: Seq::<(usize, Seq<u8>)>::empty(),
                next_address: 0,
                valid_up_to_address: 0,
            }),
    {
        OtaMemory { page: None, queue: queue_new(), next_address: 0, valid_up_to_address: 0 }
    }

    /// The image offset at which the next page is begun.
    pub fn next_address(&self) -> (address: usize)
        ensures
            address == self@.next_address,
    {
        self.next_address
    }

    /// Hands out the page if it is ready to be committed; the next page then
    /// begins 2048 bytes further on.
    pub fn get_page(&mut self) -> (r: Option<OtaPage>)
        requires
            old(self)@.next_address + 2048 <= usize::MAX,
        ensures
            r is Some <==> old(self)@.page_ready(),
            r is Some ==> Some(r->Some_0@) == old(self)@.page && final(self)@ == (OtaMemoryView {
                page: None,
                next_address: (old(self)@.next_address + 2048) as usize,
                ..old(self)@
            }),
            r is None ==> final(self)@ == old(self)@,
    {
        let ready = match &self.page {
            Some(p) => p.last_address == PAGE_SIZE && self.valid_up_to_address >= p.address
                && self.valid_up_to_address - p.address >= PAGE_SIZE,
            None => false,
        };
        if ready {
            let page = self.page.take();
            self.next_address += PAGE_SIZE;
            page
        } else {
            None
        }
    }

    /// Hands out the page as it is, if one has been begun.
    pub fn get_last_page(&mut self) -> (r: Option<OtaPage>)
        ensures
            match r {
                Some(page) => Some(page@) == old(self)@.page,
                None => old(self)@.page is None,
            },
            final(self)@ == (OtaMemoryView { page: None, ..old(self)@ }),
    {
        self.page.take()
    }
}

} // verus!
