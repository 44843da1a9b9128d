//! The fixed-capacity vectors of `heapless` that the protocol keeps its
//! bounded state in, with the contracts that the rest of the crate relies on.
//!
//! Nothing in this file is proved: each contract restates what the source of
//! `heapless::Vec` shows for the method that the function calls.

use vstd::prelude::*;

verus! {

/// `heapless::Vec`, a vector with inline storage for at most `N` items.
#[verifier::external_type_specification]
#[verifier::external_body]
#[verifier::reject_recursive_types(T)]
pub struct ExHeaplessVec<T, const N: usize>(heapless::Vec<T, N>);

/// The items of a window of block indexes, oldest first.
pub uninterp spec fn window_items(v: heapless::Vec<u16, 32>) -> Seq<u16>;

/// The items of a list of unconfirmed block indexes, in storage order.
pub uninterp spec fn pending_items(v: heapless::Vec<u16, 128>) -> Seq<u16>;

/// The bytes of one block.
pub uninterp spec fn block_bytes(v: heapless::Vec<u8, 96>) -> Seq<u8>;

/// The payload bytes of one frame.
pub uninterp spec fn payload_bytes(v: heapless::Vec<u8, 119>) -> Seq<u8>;

/// `heapless::Vec::new`: a vector without items.
#[verifier::external_body]
pub(crate) fn window_new() -> (v: heapless::Vec<u16, 32>)
    ensures
        window_items(v) == Seq::<u16>::empty(),
{
    heapless::Vec::new()
}

/// `heapless::Vec::as_slice`: the items in order; there are never more of
/// them than the capacity.
#[verifier::external_body]
pub(crate) fn window_slice(v: &heapless::Vec<u16, 32>) -> (s: &[u16])
    ensures
        s@ == window_items(*v),
        s@.len() <= 32,
{
    v.as_slice()
}

/// `heapless::Vec::push`: appends the item while there is room, and hands it
/// back as `Some`, leaving the vector as it was, when the vector is full.
#[verifier::external_body]
pub(crate) fn window_push(v: &mut heapless::Vec<u16, 32>, item: u16) -> (rejected: Option<u16>)
    ensures
        rejected is None <==> window_items(*old(v)).len() < 32,
        rejected is None ==> window_items(*final(v)) == window_items(*old(v)).push(item),
        rejected is Some ==> window_items(*final(v)) == window_items(*old(v)) && rejected
            == Some(item),
{
    v.push(item).err()
}

/// `heapless::Vec::remove`: takes out the item at `index` and shifts the
/// later ones down; it panics when `index` is out of bounds.
#[verifier::external_body]
pub(crate) fn window_remove(v: &mut heapless::Vec<u16, 32>, index: usize) -> (r: u16)
    requires
        index < window_items(*old(v)).len(),
    ensures
        r == window_items(*old(v))[index as int],
        window_items(*final(v)) == window_items(*old(v)).remove(index as int),
{
    v.remove(index)
}

/// `heapless::Vec::clear`: removes every item.
#[verifier::external_body]
pub(crate) fn window_clear(v: &mut heapless::Vec<u16, 32>)
    ensures
        window_items(*final(v)) == Seq::<u16>::empty(),
{
    v.clear()
}

/// `Clone::clone` of `heapless::Vec`: a vector with the same items.
#[verifier::external_body]
pub(crate) fn window_clone(v: &heapless::Vec<u16, 32>) -> (r: heapless::Vec<u16, 32>)
    ensures
        window_items(r) == window_items(*v),
{
    v.clone()
}

/// `heapless::Vec::new`: a vector without items.
#[verifier::external_body]
pub(crate) fn pending_new() -> (v: heapless::Vec<u16, 128>)
    ensures
        pending_items(v) == Seq::<u16>::empty(),
{
    heapless::Vec::new()
}

/// `heapless::Vec::as_slice`: the items in order; there are never more of
/// them than the capacity.
#[verifier::external_body]
pub(crate) fn pending_slice(v: &heapless::Vec<u16, 128>) -> (s: &[u16])
    ensures
        s@ == pending_items(*v),
        s@.len() <= 128,
{
    v.as_slice()
}

/// `heapless::Vec::push`: appends the item while there is room, and hands it
/// back as `Some`, leaving the vector as it was, when the vector is full.
#[verifier::external_body]
pub(crate) fn pending_push(v: &mut heapless::Vec<u16, 128>, item: u16) -> (rejected: Option<u16>)
    ensures
        rejected is None <==> pending_items(*old(v)).len() < 128,
        rejected is None ==> pending_items(*final(v)) == pending_items(*old(v)).push(item),
        rejected is Some ==> pending_items(*final(v)) == pending_items(*old(v)) && rejected
            == Some(item),
{
    v.push(item).err()
}

/// `heapless::Vec::swap_remove`: takes out the item at `index` and puts the
/// last item in its place; it panics when `index` is out of bounds.
#[verifier::external_body]
pub(crate) fn pending_swap_remove(v: &mut heapless::Vec<u16, 128>, index: usize) -> (r: u16)
    requires
        index < pending_items(*old(v)).len(),
    ensures
        r == pending_items(*old(v))[index as int],
        pending_items(*final(v)) == pending_items(*old(v)).update(
            index as int,
            pending_items(*old(v)).last(),
        ).drop_last(),
{
    v.swap_remove(index)
}

/// `heapless::Vec::clear`: removes every item.
#[verifier::external_body]
pub(crate) fn pending_clear(v: &mut heapless::Vec<u16, 128>)
    ensures
        pending_items(*final(v)) == Seq::<u16>::empty(),
{
    v.clear()
}

/// `Clone::clone` of `heapless::Vec`: a vector with the same items.
#[verifier::external_body]
pub(crate) fn pending_clone(v: &heapless::Vec<u16, 128>) -> (r: heapless::Vec<u16, 128>)
    ensures
        pending_items(r) == pending_items(*v),
{
    v.clone()
}

/// `heapless::Vec::as_slice`: the bytes in order; there are never more of
/// them than the capacity.
#[verifier::external_body]
pub(crate) fn block_slice(v: &heapless::Vec<u8, 96>) -> (s: &[u8])
    ensures
        s@ == block_bytes(*v),
        s@.len() <= 96,
{
    v.as_slice()
}

/// `heapless::Vec::new`: a vector without items.
#[verifier::external_body]
pub(crate) fn payload_new() -> (v: heapless::Vec<u8, 119>)
    ensures
        payload_bytes(v) == Seq::<u8>::empty(),
{
    heapless::Vec::new()
}

/// `heapless::Vec::from_slice`: a vector holding a copy of the slice, or
/// nothing when the slice is longer than the capacity.
#[verifier::external_body]
pub(crate) fn payload_from_slice(bytes: &[u8]) -> (r: Option<heapless::Vec<u8, 119>>)
    ensures
        r is Some <==> bytes@.len() <= 119,
        r is Some ==> payload_bytes(r->Some_0) == bytes@,
{
    heapless::Vec::from_slice(bytes).ok()
}

/// `heapless::Vec::as_slice`: the bytes in order; there are never more of
/// them than the capacity.
#[verifier::external_body]
pub(crate) fn payload_slice(v: &heapless::Vec<u8, 119>) -> (s: &[u8])
    ensures
        s@ == payload_bytes(*v),
        s@.len() <= 119,
{
    v.as_slice()
}

/// `heapless::Vec::from_slice`: a vector holding a copy of the slice, or
/// nothing when the slice is longer than the capacity.
#[verifier::external_body]
pub(crate) fn block_from_slice(bytes: &[u8]) -> (r: Option<heapless::Vec<u8, 96>>)
    ensures
        r is Some <==> bytes@.len() <= 96,
        r is Some ==> block_bytes(r->Some_0) == bytes@,
{
    heapless::Vec::from_slice(bytes).ok()
}

/// A `heapless::FnvIndexMap` from image offsets to blocks, for at most eight
/// blocks. The map keeps its entries in the order in which they came, but for
/// a removal, which moves the last entry to the place that falls free.
#[verifier::external_body]
pub struct BlockQueue {
    map: heapless::FnvIndexMap<usize, heapless::Vec<u8, 96>, 8>,
}

/// The entries of a queue, offset and bytes, in the order of the map.
pub uninterp spec fn queued_blocks(queue: BlockQueue) -> Seq<(usize, Seq<u8>)>;

/// The place of the entry for `offset`, or the number of entries if there is
/// none.
pub open spec fn queue_place(entries: Seq<(usize, Seq<u8>)>, offset: usize) -> int
    decreases entries.len(),
{
    if entries.len() == 0 {
        0
    } else if queue_place(entries.drop_last(), offset) < entries.len() - 1 {
        queue_place(entries.drop_last(), offset)
    } else if entries.last().0 == offset {
        entries.len() - 1
    } else {
        entries.len() as int
    }
}

/// `heapless::IndexMap::new`: a map without entries.
#[verifier::external_body]
pub(crate) fn queue_new() -> (queue: BlockQueue)
    ensures
        queued_blocks(queue) == Seq::<(usize, Seq<u8>)>::empty(),
{
    BlockQueue { map: heapless::FnvIndexMap::new() }
}

/// `heapless::IndexMap::len`: the number of entries, never above the
/// capacity.
#[verifier::external_body]
pub(crate) fn queue_len(queue: &BlockQueue) -> (n: usize)
    ensures
        n == queued_blocks(*queue).len(),
        n <= 8,
{
    queue.map.len()
}

/// `heapless::IndexMap::iter`, taken to its entry number `index`: the offset
/// of that entry.
#[verifier::external_body]
pub(crate) fn queue_offset(queue: &BlockQueue, index: usize) -> (offset: usize)
    requires
        index < queued_blocks(*queue).len(),
    ensures
        offset == queued_blocks(*queue)[index as int].0,
{
    *queue.map.iter().nth(index).unwrap().0
}

/// `heapless::IndexMap::iter`, taken to its entry number `index`: the bytes
/// of that entry.
#[verifier::external_body]
pub(crate) fn queue_block(queue: &BlockQueue, index: usize) -> (block: &[u8])
    requires
        index < queued_blocks(*queue).len(),
    ensures
        block@ == queued_blocks(*queue)[index as int].1,
        block@.len() <= 96,
{
    queue.map.iter().nth(index).unwrap().1.as_slice()
}

/// `heapless::IndexMap::remove`: takes out the entry for `offset`, if there
/// is one, and puts the last entry in its place; says whether there was one.
#[verifier::external_body]
pub(crate) fn queue_remove(queue: &mut BlockQueue, offset: usize) -> (found: bool)
    ensures
        found == (queue_place(queued_blocks(*old(queue)), offset) < queued_blocks(
            *old(queue),
        ).len()),
        found ==> queued_blocks(*final(queue)) == queued_blocks(*old(queue)).update(
            queue_place(queued_blocks(*old(queue)), offset),
            queued_blocks(*old(queue)).last(),
        ).drop_last(),
        !found ==> queued_blocks(*final(queue)) == queued_blocks(*old(queue)),
{
    queue.map.remove(&offset).is_some()
}

/// `heapless::IndexMap::insert`: puts the block in the place of the one that
/// the map holds for `offset`, or, if it holds none, behind the last entry
/// while there is room; says whether the map took the block.
#[verifier::external_body]
pub(crate) fn queue_insert(
    queue: &mut BlockQueue,
    offset: usize,
    block: heapless::Vec<u8, 96>,
) -> (taken: bool)
    ensures
        taken == (queue_place(queued_blocks(*old(queue)), offset) < queued_blocks(
            *old(queue),
        ).len() || queued_blocks(*old(queue)).len() < 8),
        queue_place(queued_blocks(*old(queue)), offset) < queued_blocks(*old(queue)).len()
            ==> queued_blocks(*final(queue)) == queued_blocks(*old(queue)).update(
            queue_place(queued_blocks(*old(queue)), offset),
            (offset, block_bytes(block)),
        ),
        taken && queue_place(queued_blocks(*old(queue)), offset) >= queued_blocks(
            *old(queue),
        ).len() ==> queued_blocks(*final(queue)) == queued_blocks(*old(queue)).push(
            (offset, block_bytes(block)),
        ),
        !taken ==> queued_blocks(*final(queue)) == queued_blocks(*old(queue)),
{
    queue.map.insert(offset, block).is_ok()
}

} // verus!
