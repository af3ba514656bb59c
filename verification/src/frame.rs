//! One analysis frame: the ordered frequency bins produced for one window.

use vstd::prelude::*;

verus! {

/// One frequency bin of an analysis frame.
///
/// The three scalars are IEEE-754 single-precision bit patterns, so a value
/// survives the trip through this library unchanged.
#[derive(Clone, Copy, Debug, PartialEq, Eq, Structural)]
pub struct FrequencyBinPoint {
    /// Index of the bin within its frame; bin 0 is the DC component.
    pub bin: usize,
    /// Centre frequency in hertz.
    pub frequency: u32,
    /// Power (or magnitude) of the bin.
    pub power: u32,
    /// Phase in radians.
    pub phase: u32,
}

/// Whether a bit pattern is a number above zero, positive zero or positive
/// infinity: the patterns whose sign is shown as `+`. Negative values,
/// negative zero and every NaN are shown as `-`.
pub open spec fn is_shown_positive(bits: u32) -> bool {
    bits <= 0x7f80_0000
}

/// The bit pattern with its sign bit cleared: the absolute value.
pub open spec fn magnitude_of(bits: u32) -> u32 {
    if bits < 0x8000_0000 {
        bits
    } else {
        (bits - 0x8000_0000) as u32
    }
}

impl FrequencyBinPoint {
    /// The sign to print in front of the phase's absolute value.
    pub fn phase_sign(&self) -> (sign: char)
        ensures
            sign == if is_shown_positive(self.phase) {
                '+'
            } else {
                '-'
            },
    {
        if self.phase <= 0x7f80_0000 {
            '+'
        } else {
            '-'
        }
    }

    /// The absolute value of the phase, as a bit pattern.
    pub fn phase_magnitude(&self) -> (bits: u32)
        ensures
            bits == magnitude_of(self.phase),
            bits < 0x8000_0000,
    {
        if self.phase < 0x8000_0000 {
            self.phase
        } else {
            self.phase - 0x8000_0000
        }
    }
}

/// Position of a bit pattern in the IEEE-754 total order.
///
/// Patterns with a clear sign bit rank by their value; patterns with the sign
/// bit set rank below all of those, in reverse. So negative zero comes directly
/// before positive zero, and the NaNs sit at the two far ends.
pub open spec fn total_order_key(bits: u32) -> int {
    if bits < 0x8000_0000 {
        bits as int
    } else {
        0x7fff_ffff - bits
    }
}

/// Distinct bit patterns never share a rank.
pub proof fn lemma_total_order_key_injective(a: u32, b: u32)
    ensures
        total_order_key(a) == total_order_key(b) <==> a == b,
{
}

/// Computes the rank of a bit pattern in the IEEE-754 total order.
pub fn order_key(bits: u32) -> (key: i64)
    ensures
        key == total_order_key(bits),
{
    if bits < 0x8000_0000 {
        bits as i64
    } else {
        0x7fff_ffff - (bits as i64)
    }
}

/// Whether `best` is the bin a peak search over `frame` must return: the first
/// bin past the DC bin whose power no other such bin exceeds.
pub open spec fn is_peak(frame: Seq<FrequencyBinPoint>, best: int) -> bool {
    &&& 1 <= best < frame.len()
    &&& forall|j: int|
        1 <= j < frame.len() ==> total_order_key(#[trigger] frame[j].power) <= total_order_key(
            frame[best].power,
        )
    &&& forall|j: int|
        1 <= j < best ==> total_order_key(#[trigger] frame[j].power) < total_order_key(
            frame[best].power,
        )
}

/// The index of the bin a peak search over `frame` returns, for a frame with
/// a bin besides the DC bin.
pub open spec fn peak(frame: Seq<FrequencyBinPoint>) -> int {
    choose|best: int| is_peak(frame, best)
}

/// At most one index of a frame is its peak.
pub proof fn lemma_peak_unique(frame: Seq<FrequencyBinPoint>, a: int, b: int)
    requires
        is_peak(frame, a),
        is_peak(frame, b),
    ensures
        a == b,
{
    if a < b {
        assert(total_order_key(frame[a].power) < total_order_key(frame[b].power));
    } else if b < a {
        assert(total_order_key(frame[b].power) < total_order_key(frame[a].power));
    }
}

/// Every frame with a bin besides the DC bin has a peak.
pub proof fn lemma_peak_exists(frame: Seq<FrequencyBinPoint>)
    requires
        frame.len() >= 2,
    ensures
        is_peak(frame, peak(frame)),
    decreases frame.len(),
{
    if frame.len() == 2 {
        assert(is_peak(frame, 1));
    } else {
        let shorter = frame.drop_last();
        lemma_peak_exists(shorter);
        let earlier = peak(shorter);
        let last = frame.len() - 1;
        assert(forall|j: int| 0 <= j < last ==> shorter[j] == frame[j]);
        if total_order_key(frame[last].power) > total_order_key(frame[earlier].power) {
            assert(is_peak(frame, last));
        } else {
            assert(is_peak(frame, earlier));
        }
    }
}

/// The bin to highlight for `frame`: the configured bin if there is one, the
/// peak otherwise, and none if only the DC bin could be the peak.
pub open spec fn target_of(frame: Seq<FrequencyBinPoint>, target_bin: Option<usize>) -> Option<
    FrequencyBinPoint,
> {
    match target_bin {
        Some(bin) => Some(frame[bin as int]),
        None => if frame.len() <= 1 {
            None
        } else {
            Some(frame[peak(frame)])
        },
    }
}

/// Index of the loudest bin of `frame`, the DC bin left out of the search.
///
/// Powers are compared in the IEEE-754 total order; among equally loud bins
/// the one with the lowest index wins. A frame with no bin besides the DC bin
/// has no peak.
pub fn peak_index(frame: &[FrequencyBinPoint]) -> (found: Option<usize>)
    ensures
        frame@.len() <= 1 <==> found is None,
        found matches Some(best) ==> is_peak(frame@, best as int) && best == peak(frame@),
{
    if frame.len() <= 1 {
        return None;
    }
    let mut best: usize = 1;
    let mut best_key: i64 = order_key(frame[1].power);
    let mut j: usize = 2;
    while j < frame.len()
        invariant
            1 <= best < j <= frame.len(),
            best_key == total_order_key(frame@[best as int].power),
            forall|k: int|
                1 <= k < j ==> total_order_key(#[trigger] frame@[k].power) <= best_key,
            forall|k: int|
                1 <= k < best ==> total_order_key(#[trigger] frame@[k].power) < best_key,
        decreases frame.len() - j,
    {
        let key: i64 = order_key(frame[j].power);
        if key > best_key {
            best = j;
            best_key = key;
        }
        j += 1;
    }
    proof {
        lemma_peak_exists(frame@);
        lemma_peak_unique(frame@, best as int, peak(frame@));
    }
    Some(best)
}

/// Picks the bin to highlight for `frame`.
///
/// With a configured bin that bin is taken whatever its power; without one
/// the peak is searched.
pub fn select_target(frame: &[FrequencyBinPoint], target_bin: Option<usize>) -> (target: Option<
    FrequencyBinPoint,
>)
    requires
        target_bin matches Some(bin) ==> bin < frame@.len(),
    ensures
        target == target_of(frame@, target_bin),
{
    match target_bin {
        Some(bin) => Some(frame[bin]),
        None => match peak_index(frame) {
            Some(best) => Some(frame[best]),
            None => None,
        },
    }
}

} // verus!
