//! Byte stuffing for the serial link to the host: no data byte on the wire
//! reaches `max_val`, and 0xff ends a message.

use vstd::prelude::*;

verus! {

/// Why a message could not be stuffed or unstuffed.
#[derive(Debug, Clone, Copy, PartialEq, Eq, Structural)]
pub enum HostError {
    NoData,
    DataTooLong,
}

/// One byte as it goes on the wire: a byte below `max_val` as it is, any
/// other as `max_val` followed by the excess.
pub open spec fn escape_byte(byte: u8, max_val: u8) -> Seq<u8> {
    if byte >= max_val {
        seq![max_val, (byte - max_val) as u8]
    } else {
        seq![byte]
    }
}

/// A message as it goes on the wire, without the terminator.
pub open spec fn escaped(data: Seq<u8>, max_val: u8) -> Seq<u8>
    decreases data.len(),
{
    if data.len() == 0 {
        Seq::<u8>::empty()
    } else {
        escaped(data.drop_last(), max_val) + escape_byte(data.last(), max_val)
    }
}

/// The encoder takes a byte only while two bytes of room are left; this says
/// that it took the first `k` bytes of `data` and stopped there, at the end
/// of the data or for want of room.
pub open spec fn encoder_stops_at(data: Seq<u8>, max_val: u8, room: int, k: int) -> bool {
    &&& 0 <= k <= data.len()
    &&& forall|i: int| 0 <= i < k ==> (#[trigger] escaped(data.take(i), max_val)).len() + 2 <= room
    &&& k < data.len() ==> escaped(data.take(k), max_val).len() + 2 > room
}

/// Whether the byte before position `i` is the escape marker.
pub open spec fn after_marker(data: Seq<u8>, max_val: u8, i: int) -> bool {
    0 < i <= data.len() && data[i - 1] == max_val
}

/// What received bytes decode to: a marker adds `max_val` to the byte that
/// follows it; every other byte, the terminator too, stands for itself.
pub open spec fn unescaped(data: Seq<u8>, max_val: u8) -> Seq<u8>
    decreases data.len(),
{
    if data.len() == 0 {
        Seq::<u8>::empty()
    } else {
        let before = unescaped(data.drop_last(), max_val);
        if data.last() == max_val {
            before
        } else if after_marker(data, max_val, data.len() - 1) {
            before.push((data.last() + max_val) as u8)
        } else {
            before.push(data.last())
        }
    }
}

/// The decoder takes a byte only while the output has room; this says that
/// it took the first `k` bytes of `data` and stopped there.
pub open spec fn decoder_stops_at(data: Seq<u8>, max_val: u8, room: int, k: int) -> bool {
    &&& 0 <= k <= data.len()
    &&& forall|i: int| 0 <= i < k ==> (#[trigger] unescaped(data.take(i), max_val)).len() < room
    &&& k < data.len() ==> unescaped(data.take(k), max_val).len() >= room
}

/// No byte that the decoder reaches overflows when `max_val` is added back,
/// and a message that is decoded to its end has at least one byte, the
/// terminator.
pub open spec fn decodable(data: Seq<u8>, max_val: u8, room: int) -> bool {
    &&& forall|i: int|
        0 < i < data.len() && (#[trigger] unescaped(data.take(i), max_val)).len() < room
            && data[i - 1] == max_val && data[i] != max_val ==> data[i] + max_val <= 255
    &&& data.len() > 0 && unescaped(data.drop_last(), max_val).len() < room ==> unescaped(
        data,
        max_val,
    ).len() >= 1
}

/// Stuffed text never shrinks when more data follows.
pub proof fn lemma_escaped_monotone(data: Seq<u8>, max_val: u8, i: int, j: int)
    requires
        0 <= i <= j <= data.len(),
    ensures
        escaped(data.take(i), max_val).len() <= escaped(data.take(j), max_val).len(),
    decreases j - i,
{
    if i < j {
        lemma_escaped_monotone(data, max_val, i, j - 1);
        assert(data.take(j).drop_last() =~= data.take(j - 1));
    }
}

/// Decoded text never shrinks when more data follows.
pub proof fn lemma_unescaped_monotone(data: Seq<u8>, max_val: u8, i: int, j: int)
    requires
        0 <= i <= j <= data.len(),
    ensures
        unescaped(data.take(i), max_val).len() <= unescaped(data.take(j), max_val).len(),
    decreases j - i,
{
    if i < j {
        lemma_unescaped_monotone(data, max_val, i, j - 1);
        assert(data.take(j).drop_last() =~= data.take(j - 1));
    }
}

/// Stuffs `data_in` into `data_out` and ends it with 0xff; returns the number
/// of bytes written.
pub fn maxval_encode(data_in: &[u8], data_out: &mut [u8], max_val: u8) -> (r: Result<
    usize,
    HostError,
>)
    requires
        old(data_out)@.len() >= 1,
    ensures
        final(data_out)@.len() == old(data_out)@.len(),
        r == Err::<usize, HostError>(HostError::NoData) <==> data_in@.len() == 0,
        r is Ok <==> data_in@.len() > 0
            && escaped(data_in@.drop_last(), max_val).len() + 2 <= old(data_out)@.len()
            && escaped(data_in@, max_val).len() + 1 <= old(data_out)@.len(),
        r is Ok ==> r->Ok_0 == escaped(data_in@, max_val).len() + 1 && final(data_out)@ == escaped(
            data_in@,
            max_val,
        ).push(0xff) + old(data_out)@.skip(r->Ok_0 as int),
        data_in@.len() == 0 ==> final(data_out)@ == old(data_out)@,
        r == Err::<usize, HostError>(HostError::DataTooLong) ==> exists|k: int|
            #![trigger data_in@.take(k)]
            encoder_stops_at(data_in@, max_val, old(data_out)@.len() as int, k)
                && final(data_out)@ == escaped(data_in@.take(k), max_val) + old(data_out)@.skip(
                escaped(data_in@.take(k), max_val).len() as int,
            ),
{
    if data_in.len() == 0 {
        return Err(HostError::NoData);
    }
    let ghost room = data_out@.len() as int;
    let mut i: usize = 0;
    let mut j: usize = 0;
    while i < data_in.len()
        invariant
            i <= data_in@.len(),
            data_in@.len() > 0,
            data_out@.len() == old(data_out)@.len(),
            room == old(data_out)@.len(),
            room >= 1,
            j == escaped(data_in@.take(i as int), max_val).len(),
            j <= room,
            forall|t: int|
                0 <= t < i ==> (#[trigger] escaped(data_in@.take(t), max_val)).len() + 2 <= room,
            data_out@ == escaped(data_in@.take(i as int), max_val) + old(data_out)@.skip(j as int),
        decreases data_in.len() - i,
    {
        if j >= data_out.len() - 1 {
            proof {
                lemma_escaped_monotone(data_in@, max_val, i as int, data_in@.len() - 1);
                assert(data_in@.drop_last() =~= data_in@.take(data_in@.len() - 1));
                assert(encoder_stops_at(data_in@, max_val, room, i as int));
            }
            return Err(HostError::DataTooLong);
        }
        proof {
            assert(data_in@.take(i + 1).drop_last() =~= data_in@.take(i as int));
        }
        if data_in[i] >= max_val {
            data_out[j] = max_val;
            data_out[j + 1] = data_in[i] - max_val;
            j += 2;
        } else {
            data_out[j] = data_in[i];
            j += 1;
        }
        proof {
            assert(data_out@ =~= escaped(data_in@.take(i + 1), max_val) + old(data_out)@.skip(
                j as int,
            ));
        }
        i += 1;
    }
    proof {
        assert(data_in@.take(i as int) =~= data_in@);
        assert(data_in@.drop_last() =~= data_in@.take(data_in@.len() - 1));
    }
    if j >= data_out.len() {
        proof {
            assert(encoder_stops_at(data_in@, max_val, room, i as int));
        }
        return Err(HostError::DataTooLong);
    }
    data_out[j] = 0xff;
    j += 1;
    proof {
        assert(data_out@ =~= escaped(data_in@, max_val).push(0xff) + old(data_out)@.skip(j as int));
    }
    Ok(j)
}

/// Unstuffs `data_in` into `data_out`, terminator included, and returns the
/// number of bytes in front of the terminator.
pub fn maxval_decode(data_in: &[u8], data_out: &mut [u8], max_val: u8) -> (r: Result<
    usize,
    HostError,
>)
    requires
        decodable(data_in@, max_val, old(data_out)@.len() as int),
    ensures
        final(data_out)@.len() == old(data_out)@.len(),
        r == Err::<usize, HostError>(HostError::NoData) <==> data_in@.len() == 0,
        r is Ok <==> data_in@.len() > 0
            && unescaped(data_in@.drop_last(), max_val).len() < old(data_out)@.len(),
        r is Ok ==> r->Ok_0 == unescaped(data_in@, max_val).len() - 1 && final(data_out)@
            == unescaped(data_in@, max_val) + old(data_out)@.skip(r->Ok_0 + 1),
        data_in@.len() == 0 ==> final(data_out)@ == old(data_out)@,
        r == Err::<usize, HostError>(HostError::DataTooLong) ==> exists|k: int|
            #![trigger data_in@.take(k)]
            decoder_stops_at(data_in@, max_val, old(data_out)@.len() as int, k)
                && final(data_out)@ == unescaped(data_in@.take(k), max_val),
{
    if data_in.len() == 0 {
        return Err(HostError::NoData);
    }
    let ghost room = data_out@.len() as int;
    let mut i: usize = 0;
    let mut j: usize = 0;
    let mut next_add = false;
    while i < data_in.len()
        invariant
            i <= data_in@.len(),
            data_in@.len() > 0,
            data_out@.len() == old(data_out)@.len(),
            room == old(data_out)@.len(),
            decodable(data_in@, max_val, room),
            j == unescaped(data_in@.take(i as int), max_val).len(),
            j <= room,
            next_add == after_marker(data_in@, max_val, i as int),
            forall|t: int|
                0 <= t < i ==> (#[trigger] unescaped(data_in@.take(t), max_val)).len() < room,
            data_out@ == unescaped(data_in@.take(i as int), max_val) + old(data_out)@.skip(
                j as int,
            ),
        decreases data_in.len() - i,
    {
        if j >= data_out.len() {
            proof {
                lemma_unescaped_monotone(data_in@, max_val, i as int, data_in@.len() - 1);
                assert(data_in@.drop_last() =~= data_in@.take(data_in@.len() - 1));
                assert(decoder_stops_at(data_in@, max_val, room, i as int));
                assert(data_out@ =~= unescaped(data_in@.take(i as int), max_val));
            }
            return Err(HostError::DataTooLong);
        }
        proof {
            assert(data_in@.take(i + 1).drop_last() =~= data_in@.take(i as int));
            assert(data_in@.take(i + 1).last() == data_in@[i as int]);
            assert(after_marker(data_in@.take(i + 1), max_val, i as int) == after_marker(
                data_in@,
                max_val,
                i as int,
            ));
        }
        if data_in[i] == max_val {
            next_add = true;
            i += 1;
            continue ;
        }
        data_out[j] = if next_add {
            data_in[i] + max_val
        } else {
            data_in[i]
        };
        j += 1;
        next_add = false;
        proof {
            assert(data_out@ =~= unescaped(data_in@.take(i + 1), max_val) + old(data_out)@.skip(
                j as int,
            ));
        }
        i += 1;
    }
    proof {
        assert(data_in@.take(i as int) =~= data_in@);
        assert(data_in@.drop_last() =~= data_in@.take(data_in@.len() - 1));
    }
    Ok(j - 1)
}

/// Whether `maxval_decode` can take `data_in` with `room` bytes of output.
pub fn maxval_decodable(data_in: &[u8], room: usize, max_val: u8) -> (r: bool)
    ensures
        r == decodable(data_in@, max_val, room as int),
{
    let mut i: usize = 0;
    let mut j: usize = 0;
    let mut next_add = false;
    while i < data_in.len()
        invariant
            i <= data_in@.len(),
            j == unescaped(data_in@.take(i as int), max_val).len(),
            j <= room,
            next_add == after_marker(data_in@, max_val, i as int),
            forall|t: int|
                0 <= t < i ==> (#[trigger] unescaped(data_in@.take(t), max_val)).len() < room,
            forall|t: int|
                0 < t < i && (#[trigger] unescaped(data_in@.take(t), max_val)).len() < room
                    && data_in@[t - 1] == max_val && data_in@[t] != max_val ==> data_in@[t]
                    + max_val <= 255,
        decreases data_in.len() - i,
    {
        if j >= room {
            proof {
                assert(data_in@.drop_last() =~= data_in@.take(data_in@.len() - 1));
                lemma_unescaped_monotone(data_in@, max_val, i as int, data_in@.len() - 1);
                assert forall|t: int|
                    0 < t < data_in@.len() && (#[trigger] unescaped(
                        data_in@.take(t),
                        max_val,
                    )).len() < room && data_in@[t - 1] == max_val && data_in@[t]
                        != max_val implies data_in@[t] + max_val <= 255 by {
                    if t >= i {
                        lemma_unescaped_monotone(data_in@, max_val, i as int, t);
                    }
                }
            }
            return true;
        }
        proof {
            assert(data_in@.take(i + 1).drop_last() =~= data_in@.take(i as int));
            assert(data_in@.take(i + 1).last() == data_in@[i as int]);
            assert(after_marker(data_in@.take(i + 1), max_val, i as int) == after_marker(
                data_in@,
                max_val,
                i as int,
            ));
        }
        if data_in[i] == max_val {
            next_add = true;
        } else {
            if next_add && data_in[i] > 255 - max_val {
                return false;
            }
            j += 1;
            next_add = false;
        }
        i += 1;
    }
    proof {
        assert(data_in@.take(i as int) =~= data_in@);
        if data_in@.len() > 0 {
            assert(data_in@.drop_last() =~= data_in@.take(data_in@.len() - 1));
        }
    }
    data_in.len() == 0 || j >= 1
}

} // verus!
