//! What the two ends of a session hold for each other: a block that the
//! consumer has written is retired at the producer by the next status
//! report that arrives, and by later ones while the block is in the window.

use crate::ota::common::{OtaInitPacket, OtaPacketView};
use crate::ota::consumer::{
    advance,
    lemma_window_after,
    run_end,
    window_after,
    ConsumerState,
    SessionParams,
};
use crate::ota::producer::{
    lemma_retire,
    retire,
    retire_one,
    OtaProducerState,
    ProducerState,
};
use vstd::prelude::*;

verus! {

/// The status report that follows an accepted write names the block, so the
/// producer that receives it no longer counts the block as unconfirmed.
pub proof fn lemma_written_block_is_retired(
    consumer: ConsumerState,
    producer: ProducerState,
    index: u16,
)
    requires
        consumer.inv(),
        producer.inv(),
        producer.state != OtaProducerState::Init,
    ensures
        consumer.data(index, true).status().received_indexes.contains(index),
        !producer.next(
            OtaPacketView::Status(consumer.data(index, true).status()),
        ).not_acked.contains(index),
{
    lemma_window_after(consumer.recent_indexes, index);
    lemma_retire(producer.not_acked, consumer.data(index, true).status().received_indexes);
}

/// An index stays in the window when another is written, unless it is the
/// oldest entry of a full window that has to make room.
pub proof fn lemma_window_keeps_recent(window: Seq<u16>, kept: u16, index: u16)
    requires
        window.no_duplicates(),
        window.contains(kept),
        window.len() < 32 || window[0] != kept || window.contains(index),
    ensures
        window_after(window, index).contains(kept),
{
    let after = window_after(window, index);
    let k = choose|k: int| 0 <= k < window.len() && window[k] == kept;
    if window.contains(index) {
    } else if window.len() >= 32 {
        assert(k > 0);
        assert(after[k - 1] == kept);
    } else {
        assert(after[k] == kept);
    }
}

/// A lost status report costs nothing: the report after the next accepted
/// write still names the earlier block, as long as that block is not the
/// oldest entry of a full window, and the producer retires both blocks.
pub proof fn lemma_lost_status_is_repeated(
    consumer: ConsumerState,
    producer: ProducerState,
    first: u16,
    second: u16,
)
    requires
        consumer.inv(),
        producer.inv(),
        producer.state != OtaProducerState::Init,
        window_after(consumer.recent_indexes, first).len() < 32 || window_after(
            consumer.recent_indexes,
            first,
        )[0] != first,
    ensures
        consumer.data(first, true).data(second, true).status().received_indexes.contains(first),
        !producer.next(
            OtaPacketView::Status(consumer.data(first, true).data(second, true).status()),
        ).not_acked.contains(first),
        !producer.next(
            OtaPacketView::Status(consumer.data(first, true).data(second, true).status()),
        ).not_acked.contains(second),
{
    let once = consumer.data(first, true);
    let twice = once.data(second, true);
    lemma_window_after(consumer.recent_indexes, first);
    lemma_window_after(once.recent_indexes, second);
    lemma_window_keeps_recent(once.recent_indexes, first, second);
    lemma_retire(producer.not_acked, twice.status().received_indexes);
}

/// Both ends after the first `blocks` blocks have gone over a link that
/// loses nothing, in order: the producer sends a block, the consumer's
/// delegate accepts it, and the status report comes back.
pub open spec fn in_order(consumer: ConsumerState, producer: ProducerState, blocks: nat) -> (
    ConsumerState,
    ProducerState,
)
    decreases blocks,
{
    if blocks == 0 {
        (consumer, producer)
    } else {
        let before = in_order(consumer, producer, (blocks - 1) as nat);
        let index = (blocks - 1) as u16;
        let written = before.0.data(index, true);
        (written, before.1.sent(index).next(OtaPacketView::Status(written.status())))
    }
}

/// How both ends stand after `blocks` blocks of a session of more blocks
/// have gone over in order: the watermark is at the latest block, nothing is
/// unconfirmed, and the producer goes on.
pub open spec fn in_step(consumer: ConsumerState, producer: ProducerState, blocks: nat) -> bool {
    &&& consumer.inv()
    &&& producer.inv()
    &&& consumer.session is Some
    &&& producer.not_acked.len() == 0
    &&& blocks > 0 ==> {
        &&& consumer.valid_up_to_index == blocks - 1
        &&& consumer.recent_indexes.len() > 0
        &&& consumer.recent_indexes.last() == blocks - 1
        &&& producer.highest_sent_index == blocks - 1
        &&& forall|i: int|
            0 <= i < consumer.recent_indexes.len() ==> #[trigger] consumer.recent_indexes[i]
                < blocks
    }
    &&& blocks == 0 ==> {
        &&& consumer.valid_up_to_index == 0
        &&& consumer.recent_indexes.len() == 0
        &&& producer.highest_sent_index == 0
    }
}

/// A session over a link that loses nothing completes: once every block has
/// gone over, in order, the consumer holds the whole image and the producer
/// is done; until then the producer is not done and is not refused the next
/// block, and the consumer, once it has a block, does not hold the transfer
/// to be complete.
pub proof fn lemma_in_order_transfer_completes(
    params: OtaInitPacket,
    source: usize,
    destination: usize,
    blocks: nat,
)
    requires
        1 <= params.block_count <= 65535,
        blocks <= params.block_count,
    ensures
        ({
            let ends = in_order(
                ConsumerState::started(SessionParams { params, source_address: source }),
                ProducerState::created(params, destination).opened(),
                blocks,
            );
            &&& in_step(ends.0, ends.1, blocks)
            &&& ends.1.params == params
            &&& blocks < params.block_count ==> ends.1.state == OtaProducerState::Download
                && ends.1.refusal(blocks as u16) is None
            &&& 0 < blocks < params.block_count ==> !ends.0.is_done()
            &&& blocks == params.block_count ==> ends.1.state == OtaProducerState::Done
                && ends.0.is_done()
            &&& ends.0.session == Some(SessionParams { params, source_address: source })
        }),
    decreases blocks,
{
    let start_consumer = ConsumerState::started(SessionParams { params, source_address: source });
    let start_producer = ProducerState::created(params, destination).opened();
    if blocks > 0 {
        lemma_in_order_transfer_completes(params, source, destination, (blocks - 1) as nat);
        let before = in_order(start_consumer, start_producer, (blocks - 1) as nat);
        let index = (blocks - 1) as u16;
        let consumer = before.0;
        let producer = before.1;
        let window = window_after(consumer.recent_indexes, index);
        assert(!consumer.recent_indexes.contains(index)) by {
            if consumer.recent_indexes.contains(index) {
                let k = choose|k: int|
                    0 <= k < consumer.recent_indexes.len() && consumer.recent_indexes[k] == index;
                assert(consumer.recent_indexes[k] < blocks - 1);
            }
        }
        lemma_window_after(consumer.recent_indexes, index);
        assert(window.last() == index);
        assert(!window.contains(blocks as u16) || blocks > 65535) by {
            if window.contains(blocks as u16) {
                let k = choose|k: int| 0 <= k < window.len() && window[k] == blocks as u16;
                if k < window.len() - 1 {
                    if consumer.recent_indexes.len() >= 32 {
                        assert(window[k] == consumer.recent_indexes[k + 1]);
                    } else {
                        assert(window[k] == consumer.recent_indexes[k]);
                    }
                }
            }
        }
        if blocks > 1 {
            let previous = (blocks - 2) as u16;
            assert(consumer.recent_indexes.last() == previous);
            assert(window.contains(previous)) by {
                let last = consumer.recent_indexes.len() - 1;
                if consumer.recent_indexes.len() >= 32 {
                    assert(window[last - 1] == consumer.recent_indexes[last]);
                } else {
                    assert(window[last] == consumer.recent_indexes[last]);
                }
            }
            assert(window.contains(index));
            assert(run_end(window, index as int) == index);
            assert(run_end(window, previous as int) == run_end(window, index as int));
            assert(advance(previous, window) == index);
        } else {
            assert(window.contains(index));
            assert(run_end(window, 0) == 0);
            assert(advance(0, window) == 0);
        }
        let written = consumer.data(index, true);
        crate::ota::consumer::lemma_data_keeps_inv(consumer, index, true);
        assert forall|i: int| 0 <= i < window.len() implies #[trigger] window[i] < blocks by {
            if i < window.len() - 1 {
                if consumer.recent_indexes.len() >= 32 {
                    assert(window[i] == consumer.recent_indexes[i + 1]);
                } else {
                    assert(window[i] == consumer.recent_indexes[i]);
                }
            }
        }
        let sent = producer.sent(index);
        assert(sent.not_acked =~= seq![index]);
        let status = written.status();
        lemma_retire(sent.not_acked, status.received_indexes);
        let retired = retire(sent.not_acked, status.received_indexes);
        assert(retired.len() == 0) by {
            if retired.len() > 0 {
                assert(retired.contains(retired[0]));
                assert(sent.not_acked.contains(retired[0]));
                let k = choose|k: int|
                    0 <= k < sent.not_acked.len() && sent.not_acked[k] == retired[0];
                assert(retired[0] == index);
            }
        }
    }
}

} // verus!
