//! The receiving end of a session: writes blocks through a memory delegate,
//! keeps a window of recently written indexes and the watermark of the
//! contiguous prefix, and answers every packet.

use crate::bounded::{
    block_slice,
    window_clear,
    window_clone,
    window_items,
    window_new,
    window_push,
    window_remove,
    window_slice,
};
use crate::ota::common::{
    contains,
    OtaDataPacket,
    OtaError,
    OtaInitPacket,
    OtaPacket,
    OtaPacketView,
    OtaDataPacketView,
    OtaStatusPacket,
    OtaStatusPacketView,
    Outgoing,
    OutgoingView,
};
use vstd::prelude::*;

verus! {

/// Where the consumer writes the image. The delegate owns page buffering and
/// the timing of flash commits.
pub trait OtaMemoryDelegate {
    /// Takes the block `data` for byte offset `offset` of the image;
    /// `valid_up_to` is the number of bytes that the consumer holds to be
    /// written without a gap. Returns whether the block was accepted; a
    /// refused block is sent again.
    fn write(&mut self, valid_up_to: usize, offset: usize, data: &[u8]) -> bool;
}

/// What a session was opened with.
#[derive(Debug, Clone, Copy, PartialEq, Eq)]
pub struct SessionParams {
    pub params: OtaInitPacket,
    pub source_address: usize,
}

/// The receiving end of a session.
pub struct OtaConsumer<MemoryDelegate: OtaMemoryDelegate> {
    session: Option<SessionParams>,
    pub memory: MemoryDelegate,
    recent_indexes: heapless::Vec<u16, 32>,
    valid_up_to_index: u16,
    written: Ghost<Set<u16>>,
    writes: Ghost<Seq<WriteCall>>,
}

/// One call of the delegate's `write`: what was handed to it and what it
/// answered.
pub struct WriteCall {
    pub valid_up_to: usize,
    pub offset: usize,
    pub data: Seq<u8>,
    pub accepted: bool,
}

/// The consumer's bookkeeping as a mathematical value.
pub struct ConsumerState {
    /// The open session, if there is one.
    pub session: Option<SessionParams>,
    /// The window of recently written indexes, oldest first.
    pub recent_indexes: Seq<u16>,
    /// The watermark.
    pub valid_up_to_index: u16,
    /// The indexes of the blocks that the delegate has accepted since the
    /// session was opened.
    pub written: Set<u16>,
}

/// The window after `index` has been written: unchanged if it holds the
/// index, else with the index at its end, the oldest entry making room where
/// the window is full.
pub open spec fn window_after(window: Seq<u16>, index: u16) -> Seq<u16> {
    if window.contains(index) {
        window
    } else if window.len() >= 32 {
        window.remove(0).push(index)
    } else {
        window.push(index)
    }
}

/// The last index of the run of consecutive indexes in `window` that begins
/// at `from`; the run ends at 65534 at the latest.
pub open spec fn run_end(window: Seq<u16>, from: int) -> int
    decreases 65535 - from,
{
    if from < 65534 && window.contains((from + 1) as u16) {
        run_end(window, from + 1)
    } else {
        from
    }
}

/// The watermark after a write: it moves to the end of the run of
/// consecutive indexes in `window` that begins at the watermark, and stays
/// where the window does not hold the watermark itself.
pub open spec fn advance(watermark: u16, window: Seq<u16>) -> u16 {
    if watermark <= 65534 && window.contains(watermark) {
        run_end(window, watermark as int) as u16
    } else {
        watermark
    }
}

impl ConsumerState {
    /// What holds of the bookkeeping at all times: no index is twice in the
    /// window, every index in the window has been written, the watermark is
    /// below 65535, and a watermark above zero has every index up to it
    /// written.
    pub open spec fn inv(self) -> bool {
        &&& self.recent_indexes.no_duplicates()
        &&& self.recent_indexes.len() <= 32
        &&& self.valid_up_to_index <= 65534
        &&& forall|i: int|
            0 <= i < self.recent_indexes.len() ==> self.written.contains(
                #[trigger] self.recent_indexes[i],
            )
        &&& self.valid_up_to_index > 0 ==> forall|i: u16|
            i <= self.valid_up_to_index ==> #[trigger] self.written.contains(i)
    }

    /// The state in which a session has just been opened.
    pub open spec fn started(session: SessionParams) -> ConsumerState {
        ConsumerState {
            session: Some(session),
            recent_indexes: Seq::<u16>::empty(),
            valid_up_to_index: 0,
            written: Set::<u16>::empty(),
        }
    }

    /// The state after the delegate has answered the write of block `index`.
    pub open spec fn data(self, index: u16, accepted: bool) -> ConsumerState {
        if accepted {
            ConsumerState {
                session: self.session,
                recent_indexes: window_after(self.recent_indexes, index),
                valid_up_to_index: advance(
                    self.valid_up_to_index,
                    window_after(self.recent_indexes, index),
                ),
                written: self.written.insert(index),
            }
        } else {
            self
        }
    }

    /// The status report of this state.
    pub open spec fn status(self) -> OtaStatusPacketView {
        OtaStatusPacketView {
            received_indexes: self.recent_indexes,
            valid_up_to_index: self.valid_up_to_index,
        }
    }

    /// Whether the transfer is complete: a session is open and the watermark
    /// is the index of its last block.
    pub open spec fn is_done(self) -> bool {
        match self.session {
            Some(session) => self.valid_up_to_index + 1 == session.params.block_count,
            None => false,
        }
    }

    /// The state after `packet` from node `source`; `accepted` is the
    /// delegate's answer, which only a data packet in a session asks for.
    pub open spec fn next(self, source: usize, packet: OtaPacketView, accepted: bool)
        -> ConsumerState {
        match packet {
            OtaPacketView::Init(params) => ConsumerState::started(
                SessionParams { params, source_address: source },
            ),
            OtaPacketView::Data(data) => if self.session is Some {
                self.data(data.index, accepted)
            } else {
                self
            },
            OtaPacketView::Abort => ConsumerState { session: None, ..self },
            _ => self,
        }
    }

    /// The answer to `packet` from node `source`.
    pub open spec fn reply(self, source: usize, packet: OtaPacketView, accepted: bool) -> Result<
        OutgoingView,
        OtaError,
    > {
        match packet {
            OtaPacketView::Init(_) => Ok(
                OutgoingView { destination: source, packet: OtaPacketView::InitAck },
            ),
            OtaPacketView::Data(data) => match self.session {
                Some(session) => Ok(
                    OutgoingView {
                        destination: session.source_address,
                        packet: OtaPacketView::Status(self.data(data.index, accepted).status()),
                    },
                ),
                None => Err(OtaError::InvalidPacketType),
            },
            OtaPacketView::Done => match self.session {
                Some(session) => Ok(
                    OutgoingView {
                        destination: session.source_address,
                        packet: if self.is_done() {
                            OtaPacketView::DoneAck
                        } else {
                            OtaPacketView::Status(self.status())
                        },
                    },
                ),
                None => Err(OtaError::InvalidPacketType),
            },
            OtaPacketView::Abort => Ok(
                OutgoingView { destination: source, packet: OtaPacketView::AbortAck },
            ),
            _ => Err(OtaError::InvalidPacketType),
        }
    }
}

/// The call of the delegate for a data packet: the block goes to the offset
/// of its index, and the contiguous prefix is counted as if the block
/// followed the watermark.
pub open spec fn write_call(
    session: SessionParams,
    valid_up_to_index: u16,
    data: OtaDataPacketView,
    accepted: bool,
) -> WriteCall {
    WriteCall {
        valid_up_to: (valid_up_to_index * session.params.block_size + data.data.len()) as usize,
        offset: (session.params.block_size * data.index) as usize,
        data: data.data,
        accepted,
    }
}

/// The calls of the delegate after `packet`: a data packet in a session adds
/// one call, an `Init` begins a new record, and nothing else calls the
/// delegate.
pub open spec fn writes_after(
    state: ConsumerState,
    writes: Seq<WriteCall>,
    packet: OtaPacketView,
    accepted: bool,
) -> Seq<WriteCall> {
    match packet {
        OtaPacketView::Init(_) => Seq::<WriteCall>::empty(),
        OtaPacketView::Data(data) => match state.session {
            Some(session) => writes.push(
                write_call(session, state.valid_up_to_index, data, accepted),
            ),
            None => writes,
        },
        _ => writes,
    }
}

/// Whether the delegate accepted a write at the offset of block `index`.
pub open spec fn accepted_at(writes: Seq<WriteCall>, block_size: u16, index: u16) -> bool {
    exists|k: int|
        0 <= k < writes.len() && (#[trigger] writes[k]).accepted && writes[k].offset == block_size
            * index
}

/// Every index that counts as written in a session stands for a write that
/// the delegate accepted.
pub open spec fn backed(state: ConsumerState, writes: Seq<WriteCall>) -> bool {
    match state.session {
        Some(session) => forall|i: u16| #[trigger]
            state.written.contains(i) ==> accepted_at(writes, session.params.block_size, i),
        None => true,
    }
}

/// The view of what `process_message` returns.
pub open spec fn reply_view(r: Result<Outgoing, OtaError>) -> Result<OutgoingView, OtaError> {
    match r {
        Ok(outgoing) => Ok(outgoing@),
        Err(e) => Err(e),
    }
}

/// Every index from the start of a run to its end is in the window, and the
/// index behind the run is not.
pub proof fn lemma_run_end(window: Seq<u16>, from: int)
    requires
        0 <= from <= 65534,
        window.contains(from as u16),
    ensures
        from <= run_end(window, from) <= 65534,
        forall|i: u16| from <= i <= run_end(window, from) ==> window.contains(i),
        run_end(window, from) < 65534 ==> !window.contains((run_end(window, from) + 1) as u16),
    decreases 65535 - from,
{
    if from < 65534 && window.contains((from + 1) as u16) {
        lemma_run_end(window, from + 1);
    }
}

/// A window stays free of duplicates when an index is written, and holds
/// nothing but what it held and that index.
pub proof fn lemma_window_after(window: Seq<u16>, index: u16)
    requires
        window.no_duplicates(),
        window.len() <= 32,
    ensures
        window_after(window, index).no_duplicates(),
        window_after(window, index).len() <= 32,
        window_after(window, index).contains(index),
        forall|x: u16|
            window_after(window, index).contains(x) ==> x == index || window.contains(x),
{
    let after = window_after(window, index);
    if window.contains(index) {
    } else if window.len() >= 32 {
        let rest = window.remove(0);
        assert forall|i: int| 0 <= i < rest.len() implies #[trigger] rest[i] == window[i + 1] by {}
        assert(after[after.len() - 1] == index);
        assert forall|x: u16| after.contains(x) implies x == index || window.contains(x) by {
            let k = choose|k: int| 0 <= k < after.len() && after[k] == x;
            if k < rest.len() {
                assert(window[k + 1] == x);
            }
        }
        assert forall|i: int, j: int|
            0 <= i < after.len() && 0 <= j < after.len() && i != j implies after[i]
            != after[j] by {
            if i < rest.len() && j < rest.len() {
                assert(after[i] == window[i + 1]);
                assert(after[j] == window[j + 1]);
            } else if i < rest.len() {
                assert(after[i] == window[i + 1]);
            } else {
                assert(after[j] == window[j + 1]);
            }
        }
    } else {
        assert(after[after.len() - 1] == index);
        assert forall|x: u16| after.contains(x) implies x == index || window.contains(x) by {
            let k = choose|k: int| 0 <= k < after.len() && after[k] == x;
            if k < window.len() {
                assert(window[k] == x);
            }
        }
        assert forall|i: int, j: int|
            0 <= i < after.len() && 0 <= j < after.len() && i != j implies after[i]
            != after[j] by {
            if i < window.len() {
                assert(after[i] == window[i]);
            }
            if j < window.len() {
                assert(after[j] == window[j]);
            }
        }
    }
}

/// The bookkeeping stays sound when the delegate answers a write.
pub proof fn lemma_data_keeps_inv(state: ConsumerState, index: u16, accepted: bool)
    requires
        state.inv(),
    ensures
        state.data(index, accepted).inv(),
        state.data(index, accepted).valid_up_to_index >= state.valid_up_to_index,
{
    if accepted {
        let after = state.data(index, true);
        let window = after.recent_indexes;
        lemma_window_after(state.recent_indexes, index);
        assert forall|i: int| 0 <= i < window.len() implies after.written.contains(
            #[trigger] window[i],
        ) by {
            assert(window.contains(window[i]));
            if window[i] != index {
                let k = choose|k: int|
                    0 <= k < state.recent_indexes.len() && state.recent_indexes[k] == window[i];
                assert(state.written.contains(state.recent_indexes[k]));
            }
        }
        if window.contains(state.valid_up_to_index) {
            lemma_run_end(window, state.valid_up_to_index as int);
            assert forall|i: u16| i <= after.valid_up_to_index implies #[trigger]
            after.written.contains(i) by {
                if i >= state.valid_up_to_index {
                    assert(window.contains(i));
                    let k = choose|k: int| 0 <= k < window.len() && window[k] == i;
                    assert(after.written.contains(window[k]));
                } else {
                    assert(state.written.contains(i));
                }
            }
        }
    }
}

/// The watermark never moves back while a session lasts: whatever packet
/// arrives, short of a new `Init`, leaves it where it was or further on.
pub proof fn lemma_watermark_monotone(
    state: ConsumerState,
    source: usize,
    packet: OtaPacketView,
    accepted: bool,
)
    requires
        state.inv(),
        packet !is Init,
    ensures
        state.next(source, packet, accepted).valid_up_to_index >= state.valid_up_to_index,
        state.next(source, packet, accepted).inv(),
{
    if let OtaPacketView::Data(data) = packet {
        lemma_data_keeps_inv(state, data.index, accepted);
    }
}

/// Every packet leaves the bookkeeping sound.
pub proof fn lemma_next_keeps_inv(
    state: ConsumerState,
    source: usize,
    packet: OtaPacketView,
    accepted: bool,
)
    requires
        state.inv(),
    ensures
        state.next(source, packet, accepted).inv(),
{
    if let OtaPacketView::Data(data) = packet {
        lemma_data_keeps_inv(state, data.index, accepted);
    }
}

/// Once block 0 has been written, or the watermark has left zero, the
/// delegate has accepted a write at the offset of every block up to the
/// watermark.
pub proof fn lemma_watermark_contiguous(
    state: ConsumerState,
    writes: Seq<WriteCall>,
    index: u16,
)
    requires
        state.inv(),
        backed(state, writes),
        state.session is Some,
        state.valid_up_to_index > 0 || state.written.contains(0),
        index <= state.valid_up_to_index,
    ensures
        state.written.contains(index),
        accepted_at(writes, state.session->Some_0.params.block_size, index),
{
    assert(state.written.contains(index));
}

/// A write that the delegate has answered keeps every written index backed
/// by an accepted write.
pub proof fn lemma_data_keeps_backed(
    state: ConsumerState,
    writes: Seq<WriteCall>,
    data: OtaDataPacketView,
    accepted: bool,
)
    requires
        backed(state, writes),
        state.session is Some,
    ensures
        backed(
            state.data(data.index, accepted),
            writes.push(
                write_call(state.session->Some_0, state.valid_up_to_index, data, accepted),
            ),
        ),
{
    let session = state.session->Some_0;
    let call = write_call(session, state.valid_up_to_index, data, accepted);
    let after = writes.push(call);
    assert(session.params.block_size * data.index <= 65535 * 65535) by (nonlinear_arith)
        requires
            data.index <= 65535,
            session.params.block_size <= 65535,
    ;
    assert forall|i: u16| #[trigger]
        state.data(data.index, accepted).written.contains(i) implies accepted_at(
        after,
        session.params.block_size,
        i,
    ) by {
        if state.written.contains(i) {
            let k = choose|k: int|
                0 <= k < writes.len() && (#[trigger] writes[k]).accepted && writes[k].offset
                    == session.params.block_size * i;
            assert(after[k] == writes[k]);
        } else {
            assert(after[writes.len() as int] == call);
        }
    }
}

/// A second `Init` with the parameters of the first, from the same node,
/// changes nothing.
pub proof fn lemma_init_idempotent(
    state: ConsumerState,
    source: usize,
    params: OtaInitPacket,
    first: bool,
    second: bool,
)
    ensures
        state.next(source, OtaPacketView::Init(params), first).next(
            source,
            OtaPacketView::Init(params),
            second,
        ) == state.next(source, OtaPacketView::Init(params), first),
        state.next(source, OtaPacketView::Init(params), first).reply(
            source,
            OtaPacketView::Init(params),
            second,
        ) == state.reply(source, OtaPacketView::Init(params), first),
{
}

/// Writing one block twice is writing it once: where the delegate accepted
/// the first write, the second leaves window, watermark and written set as
/// they are, whatever the delegate answers; and two writes leave what one
/// write that was accepted whenever either of them was would have left.
pub proof fn lemma_data_idempotent(state: ConsumerState, index: u16, first: bool, second: bool)
    requires
        state.inv(),
    ensures
        first ==> state.data(index, first).data(index, second) == state.data(index, first),
        state.data(index, first).data(index, second) == state.data(index, first || second),
{
    if first {
        let once = state.data(index, true);
        let window = once.recent_indexes;
        lemma_window_after(state.recent_indexes, index);
        assert(window_after(window, index) == window);
        if window.contains(state.valid_up_to_index) {
            lemma_run_end(window, state.valid_up_to_index as int);
            assert(window.contains(once.valid_up_to_index));
            assert(run_end(window, once.valid_up_to_index as int) == once.valid_up_to_index);
        }
        assert(advance(once.valid_up_to_index, window) == once.valid_up_to_index);
        assert(once.written.insert(index) =~= once.written);
        assert(once.data(index, true) == once);
    }
}

/// The arguments of the delegate's `write` for a block: the number of bytes
/// written without a gap once this block is counted in, and the byte offset
/// of the block.
pub fn write_arguments(block_size: u16, valid_up_to_index: u16, index: u16, len: usize) -> (r: (
    usize,
    usize,
))
    requires
        len <= 96,
    ensures
        r.0 == valid_up_to_index * block_size + len,
        r.1 == block_size * index,
{
    assert(valid_up_to_index * block_size <= 65535 * 65535) by (nonlinear_arith)
        requires
            valid_up_to_index <= 65535,
            block_size <= 65535,
    ;
    assert(block_size * index <= 65535 * 65535) by (nonlinear_arith)
        requires
            index <= 65535,
            block_size <= 65535,
    ;
    let size: usize = block_size as usize;
    (valid_up_to_index as usize * size + len, size * (index as usize))
}

impl<MemoryDelegate: OtaMemoryDelegate> View for OtaConsumer<MemoryDelegate> {
    type V = ConsumerState;

    closed spec fn view(&self) -> ConsumerState {
        ConsumerState {
            session: self.session,
            recent_indexes: window_items(self.recent_indexes),
            valid_up_to_index: self.valid_up_to_index,
            written: self.written@,
        }
    }
}

impl<MemoryDelegate: OtaMemoryDelegate> OtaConsumer<MemoryDelegate> {
    /// The memory delegate.
    pub closed spec fn delegate(&self) -> MemoryDelegate {
        self.memory
    }

    /// The calls of the delegate's `write` since the session was opened.
    pub closed spec fn writes(&self) -> Seq<WriteCall> {
        self.writes@
    }

    /// The bookkeeping is sound, and every index that counts as written
    /// stands for a write that the delegate accepted.
    pub open spec fn wf(&self) -> bool {
        self@.inv() && backed(self@, self.writes())
    }

    /// A consumer without a session, writing into `memory`.
    pub fn new(memory: MemoryDelegate) -> (consumer: OtaConsumer<MemoryDelegate>)
        ensures
            consumer@ == (ConsumerState {
                session: None,
                recent_indexes: Seq::<u16>::empty(),
                valid_up_to_index: 0,
                written: Set::<u16>::empty(),
            }),
            consumer.writes() == Seq::<WriteCall>::empty(),
            consumer.wf(),
            consumer.delegate() == memory,
    {
        OtaConsumer {
            session: None,
            recent_indexes: window_new(),
            valid_up_to_index: 0,
            memory,
            written: Ghost(Set::empty()),
            writes: Ghost(Seq::empty()),
        }
    }

    fn handle_init(&mut self, session: SessionParams) -> (r: Outgoing)
        ensures
            final(self)@ == ConsumerState::started(session),
            final(self).writes() == Seq::<WriteCall>::empty(),
            final(self).wf(),
            final(self).delegate() == old(self).delegate(),
            r@ == (OutgoingView {
                destination: session.source_address,
                packet: OtaPacketView::InitAck,
            }),
    {
        let source = session.source_address;
        self.session = Some(session);
        window_clear(&mut self.recent_indexes);
        self.valid_up_to_index = 0;
        self.written = Ghost(Set::empty());
        self.writes = Ghost(Seq::empty());
        Outgoing { destination: source, packet: OtaPacket::InitAck }
    }

    /// Bookkeeping after the delegate has answered the write of block
    /// `index`: a refused write changes nothing; an accepted one enters the
    /// index in the window and moves the watermark.
    fn record_write(&mut self, index: u16, accepted: bool)
        requires
            old(self)@.inv(),
        ensures
            final(self)@ == old(self)@.data(index, accepted),
            final(self)@.inv(),
            final(self).writes() == old(self).writes(),
            final(self).delegate() == old(self).delegate(),
    {
        proof {
            lemma_data_keeps_inv(self@, index, accepted);
        }
        if accepted {
            if !contains(window_slice(&self.recent_indexes), index) {
                if window_slice(&self.recent_indexes).len() >= 32 {
                    window_remove(&mut self.recent_indexes, 0);
                }
                let _ = window_push(&mut self.recent_indexes, index);
            }
            let ghost window = window_items(self.recent_indexes);
            let ghost start = self.valid_up_to_index;
            assert(window == window_after(old(self)@.recent_indexes, index));
            let recent = window_slice(&self.recent_indexes);
            let mut watermark: u16 = self.valid_up_to_index;
            let mut i: u16 = self.valid_up_to_index;
            while i < u16::MAX && contains(recent, i)
                invariant
                    recent@ == window,
                    start <= 65534,
                    start <= i <= 65535,
                    i == start ==> watermark == start,
                    i > start ==> watermark == i - 1 && window.contains(start) && window.contains(
                        watermark,
                    ) && run_end(window, start as int) == run_end(window, watermark as int),
                decreases 65535 - i,
            {
                watermark = i;
                i = i + 1;
            }
            assert(watermark == advance(start, window));
            self.valid_up_to_index = watermark;
            proof {
                self.written = Ghost(self.written@.insert(index));
            }
        }
    }

    fn handle_data(&mut self, data: OtaDataPacket) -> (r: Result<Outgoing, OtaError>)
        requires
            old(self).wf(),
        ensures
            final(self).wf(),
            exists|accepted: bool|
                final(self)@ == #[trigger] old(self)@.next(
                    0,
                    OtaPacketView::Data(data@),
                    accepted,
                ) && reply_view(r) == old(self)@.reply(0, OtaPacketView::Data(data@), accepted)
                    && final(self).writes() == writes_after(
                    old(self)@,
                    old(self).writes(),
                    OtaPacketView::Data(data@),
                    accepted,
                ),
    {
        let session = match &self.session {
            Some(p) => *p,
            None => {
                assert(self@ == old(self)@.next(0, OtaPacketView::Data(data@), false));
                return Err(OtaError::InvalidPacketType);
            },
        };
        let bytes = block_slice(&data.data);
        let (valid_up_to, begin) = write_arguments(
            session.params.block_size,
            self.valid_up_to_index,
            data.index,
            bytes.len(),
        );
        let accepted = self.memory.write(valid_up_to, begin, bytes);
        proof {
            lemma_data_keeps_backed(self@, self.writes@, data@, accepted);
            self.writes = Ghost(
                self.writes@.push(write_call(session, self.valid_up_to_index, data@, accepted)),
            );
        }
        self.record_write(data.index, accepted);
        let status = self.get_status();
        assert(self@ == old(self)@.next(0, OtaPacketView::Data(data@), accepted));
        Ok(Outgoing { destination: session.source_address, packet: OtaPacket::Status(status) })
    }

    fn handle_done(&self) -> (r: Result<Outgoing, OtaError>)
        requires
            self@.inv(),
        ensures
            reply_view(r) == self@.reply(0, OtaPacketView::Done, false),
    {
        let session = match &self.session {
            Some(p) => *p,
            None => {
                return Err(OtaError::InvalidPacketType);
            },
        };
        if self.is_done() {
            Ok(Outgoing { destination: session.source_address, packet: OtaPacket::DoneAck })
        } else {
            Ok(
                Outgoing {
                    destination: session.source_address,
                    packet: OtaPacket::Status(self.get_status()),
                },
            )
        }
    }

    fn handle_abort(&mut self, source_address: usize) -> (r: Outgoing)
        ensures
            final(self)@ == (ConsumerState { session: None, ..old(self)@ }),
            final(self).writes() == old(self).writes(),
            final(self).delegate() == old(self).delegate(),
            r@ == (OutgoingView { destination: source_address, packet: OtaPacketView::AbortAck }),
    {
        self.session = None;
        Outgoing { destination: source_address, packet: OtaPacket::AbortAck }
    }

    /// Takes one packet that node `source` sent and returns the answer to
    /// send back. A data packet in a session is handed to the delegate,
    /// once; the state that follows is the one for the delegate's answer.
    pub fn process_message(&mut self, source: usize, packet: OtaPacket) -> (r: Result<
        Outgoing,
        OtaError,
    >)
        requires
            old(self).wf(),
        ensures
            final(self).wf(),
            exists|accepted: bool|
                final(self)@ == #[trigger] old(self)@.next(source, packet@, accepted) && reply_view(
                    r,
                ) == old(self)@.reply(source, packet@, accepted) && final(self).writes()
                    == writes_after(old(self)@, old(self).writes(), packet@, accepted),
            packet !is Data ==> final(self).delegate() == old(self).delegate(),
            packet !is Init ==> final(self)@.valid_up_to_index >= old(self)@.valid_up_to_index,
    {
        match packet {
            OtaPacket::Init(init) => {
                let r = self.handle_init(SessionParams { params: init, source_address: source });
                assert(self@ == old(self)@.next(source, packet@, false));
                Ok(r)
            },
            OtaPacket::Data(data) => {
                let r = self.handle_data(data);
                proof {
                    let accepted = choose|accepted: bool|
                        self@ == #[trigger] old(self)@.next(
                            0,
                            OtaPacketView::Data(data@),
                            accepted,
                        ) && reply_view(r) == old(self)@.reply(
                            0,
                            OtaPacketView::Data(data@),
                            accepted,
                        ) && self.writes() == writes_after(
                            old(self)@,
                            old(self).writes(),
                            OtaPacketView::Data(data@),
                            accepted,
                        );
                    assert(self@ == old(self)@.next(source, packet@, accepted));
                    lemma_data_keeps_inv(old(self)@, data.index, accepted);
                }
                r
            },
            OtaPacket::InitAck => {
                assert(self@ == old(self)@.next(source, packet@, false));
                Err(OtaError::InvalidPacketType)
            },
            OtaPacket::Status(_) => {
                assert(self@ == old(self)@.next(source, packet@, false));
                Err(OtaError::InvalidPacketType)
            },
            OtaPacket::Done => {
                assert(self@ == old(self)@.next(source, packet@, false));
                self.handle_done()
            },
            OtaPacket::DoneAck => {
                assert(self@ == old(self)@.next(source, packet@, false));
                Err(OtaError::InvalidPacketType)
            },
            OtaPacket::Abort => {
                let r = self.handle_abort(source);
                assert(self@ == old(self)@.next(source, packet@, false));
                Ok(r)
            },
            OtaPacket::AbortAck => {
                assert(self@ == old(self)@.next(source, packet@, false));
                Err(OtaError::InvalidPacketType)
            },
        }
    }

    /// The status report of the current state.
    pub fn get_status(&self) -> (status: OtaStatusPacket)
        ensures
            status@ == self@.status(),
    {
        OtaStatusPacket {
            received_indexes: window_clone(&self.recent_indexes),
            valid_up_to_index: self.valid_up_to_index,
        }
    }

    /// Whether the transfer is complete.
    pub fn is_done(&self) -> (done: bool)
        requires
            self@.inv(),
        ensures
            done == self@.is_done(),
    {
        let block_count = match &self.session {
            Some(p) => p.params.block_count,
            None => {
                return false;
            },
        };
        self.valid_up_to_index + 1 == block_count
    }
}

} // verus!
