//! The soil sensor's arithmetic: which multiplexer lines select a channel,
//! how a charging time becomes a reading, how readings are averaged, and how
//! four readings travel in a frame.

use vstd::prelude::*;

verus! {

/// Readings that go into one average.
pub const SAMPLES: usize = 10;

/// One reading: the charging time in microseconds, or none where the
/// comparator did not trip in time.
#[derive(Debug, Clone, Copy, PartialEq, Eq, Structural)]
pub enum SoilSensorResult {
    Timeout,
    Measured(u16),
}

/// Which charging resistor is used.
#[derive(Debug, Clone, Copy, PartialEq, Eq, Structural)]
pub enum SoilSensorRange {
    /// 100 kOhm; a microsecond counts tenfold.
    Low,
    /// 1 MOhm.
    High,
}

/// The levels of the two multiplexer lines for a channel: its two low bits.
pub fn channel_levels(channel: u8) -> (levels: (bool, bool))
    ensures
        levels.0 == (channel % 2 == 1),
        levels.1 == ((channel / 2) % 2 == 1),
{
    assert(channel & 1 == channel % 2) by (bit_vector);
    assert((channel & 2 == 2) == ((channel / 2) % 2 == 1)) by (bit_vector);
    (channel & 1 == 1, channel & 2 == 2)
}

/// The reading for a charging time of `micros` microseconds: the time, or
/// ten times the time in the low range, cut to sixteen bits.
pub fn reading(range: SoilSensorRange, micros: u64) -> (r: SoilSensorResult)
    requires
        micros * 10 <= u64::MAX,
    ensures
        r == SoilSensorResult::Measured(
            ((match range {
                SoilSensorRange::Low => micros * 10,
                SoilSensorRange::High => micros as int,
            }) % 65536) as u16,
        ),
{
    let scaled: u64 = match range {
        SoilSensorRange::Low => micros * 10,
        SoilSensorRange::High => micros,
    };
    SoilSensorResult::Measured((scaled % 65536) as u16)
}

/// Whether one of the readings is a timeout.
pub open spec fn timed_out(samples: Seq<SoilSensorResult>) -> bool {
    exists|i: int| 0 <= i < samples.len() && samples[i] is Timeout
}

/// The sum of the readings.
pub open spec fn total(samples: Seq<SoilSensorResult>) -> int
    decreases samples.len(),
{
    if samples.len() == 0 {
        0
    } else {
        total(samples.drop_last()) + match samples.last() {
            SoilSensorResult::Timeout => 0int,
            SoilSensorResult::Measured(d) => d as int,
        }
    }
}

/// The sum of readings never shrinks when more readings follow.
pub proof fn lemma_total_monotone(samples: Seq<SoilSensorResult>, i: int)
    requires
        0 <= i <= samples.len(),
    ensures
        0 <= total(samples.take(i)) <= total(samples),
    decreases samples.len() - i,
{
    if i < samples.len() {
        lemma_total_monotone(samples, i + 1);
        lemma_total_positive(samples.take(i));
        assert(samples.take(i + 1).drop_last() =~= samples.take(i));
    } else {
        assert(samples.take(i) =~= samples);
        lemma_total_positive(samples);
    }
}

proof fn lemma_total_positive(samples: Seq<SoilSensorResult>)
    ensures
        0 <= total(samples),
    decreases samples.len(),
{
    if samples.len() > 0 {
        lemma_total_positive(samples.drop_last());
    }
}

/// The average of a channel's readings: a timeout if one of them is a
/// timeout, else their sum, which fits in sixteen bits, divided by the
/// number of readings that go into an average.
pub fn average(samples: &[SoilSensorResult]) -> (r: SoilSensorResult)
    requires
        !timed_out(samples@) ==> total(samples@) <= 65535,
    ensures
        r == (if timed_out(samples@) {
            SoilSensorResult::Timeout
        } else {
            SoilSensorResult::Measured((total(samples@) / 10) as u16)
        }),
{
    let mut sum: u16 = 0;
    let mut i: usize = 0;
    while i < samples.len()
        invariant
            i <= samples@.len(),
            !timed_out(samples@.take(i as int)),
            sum == total(samples@.take(i as int)),
            !timed_out(samples@) ==> total(samples@) <= 65535,
        decreases samples.len() - i,
    {
        proof {
            assert(samples@.take(i + 1).drop_last() =~= samples@.take(i as int));
        }
        match samples[i] {
            SoilSensorResult::Timeout => {
                assert(samples@[i as int] is Timeout);
                return SoilSensorResult::Timeout;
            },
            SoilSensorResult::Measured(d) => {
                proof {
                    lemma_total_monotone(samples@, i + 1);
                    let taken = samples@.take(i + 1);
                    if timed_out(taken) {
                        let k = choose|k: int| 0 <= k < taken.len() && taken[k] is Timeout;
                        if k < i {
                            assert(samples@.take(i as int)[k] is Timeout);
                        }
                    }
                }
                if (d as u32) + (sum as u32) > 65535 {
                    // The sum fits unless a later reading is a timeout.
                    return SoilSensorResult::Timeout;
                }
                sum = sum + d;
            },
        }
        i = i + 1;
    }
    proof {
        assert(samples@.take(i as int) =~= samples@);
    }
    SoilSensorResult::Measured(sum / (SAMPLES as u16))
}

/// The two bytes of a reading in a frame: the time, low byte first, and
/// zero for a timeout.
pub open spec fn reading_bytes(sample: SoilSensorResult) -> Seq<u8> {
    match sample {
        SoilSensorResult::Timeout => seq![0u8, 0u8],
        SoilSensorResult::Measured(d) => seq![(d % 256) as u8, (d / 256) as u8],
    }
}

/// The payload of a frame that carries four readings.
pub fn encode_samples(samples: &[SoilSensorResult; 4]) -> (payload: Vec<u8>)
    ensures
        payload@ == reading_bytes(samples@[0]) + reading_bytes(samples@[1]) + reading_bytes(
            samples@[2],
        ) + reading_bytes(samples@[3]),
        payload@.len() == 8,
{
    let mut payload: Vec<u8> = Vec::new();
    let mut i: usize = 0;
    while i < 4
        invariant
            i <= 4,
            payload@.len() == 2 * i,
            forall|k: int|
                0 <= k < i ==> payload@.subrange(2 * k, 2 * k + 2) == reading_bytes(
                    #[trigger] samples@[k],
                ),
        decreases 4 - i,
    {
        let ghost before = payload@;
        let d: u16 = match samples[i] {
            SoilSensorResult::Timeout => 0,
            SoilSensorResult::Measured(d) => d,
        };
        payload.push((d % 256) as u8);
        payload.push((d / 256) as u8);
        proof {
            assert(payload@.subrange(2 * i, 2 * i + 2) =~= reading_bytes(samples@[i as int]));
            assert forall|k: int| 0 <= k < i implies payload@.subrange(2 * k, 2 * k + 2)
                == reading_bytes(#[trigger] samples@[k]) by {
                assert(payload@.subrange(2 * k, 2 * k + 2) =~= before.subrange(2 * k, 2 * k + 2));
            }
        }
        i = i + 1;
    }
    proof {
        assert(payload@ =~= payload@.subrange(0, 2) + payload@.subrange(2, 4) + payload@.subrange(
            4,
            6,
        ) + payload@.subrange(6, 8));
        assert(payload@.subrange(2 * 0int, 2 * 0int + 2) == reading_bytes(samples@[0]));
        assert(payload@.subrange(2 * 1int, 2 * 1int + 2) == reading_bytes(samples@[1]));
        assert(payload@.subrange(2 * 2int, 2 * 2int + 2) == reading_bytes(samples@[2]));
        assert(payload@.subrange(2 * 3int, 2 * 3int + 2) == reading_bytes(samples@[3]));
    }
    payload
}

/// The four readings in the payload of a frame, as the gateway hands them to
/// the host: `None` where the payload is shorter than eight bytes.
pub fn decode_samples(payload: &[u8]) -> (r: Option<[u16; 4]>)
    ensures
        r is Some <==> payload@.len() >= 8,
        r is Some ==> forall|i: int|
            0 <= i < 4 ==> (#[trigger] r->Some_0@[i]) == payload@[2 * i] + 256 * payload@[2 * i
                + 1],
{
    if payload.len() < 8 {
        return None;
    }
    let mut data = [0u16;4];
    let mut i: usize = 0;
    while i < 4
        invariant
            i <= 4,
            payload@.len() >= 8,
            forall|k: int|
                0 <= k < i ==> (#[trigger] data@[k]) == payload@[2 * k] + 256 * payload@[2 * k + 1],
        decreases 4 - i,
    {
        data[i] = (payload[2 * i] as u16) + 256 * (payload[2 * i + 1] as u16);
        i = i + 1;
    }
    Some(data)
}

} // verus!
