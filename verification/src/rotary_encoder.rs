//! Quadrature encoder decoding: raw pulse counts in, a delta and a bounded count out.
//!
//! The pulse counter itself is hardware. The decoder here is handed each reading
//! and says what has to be published for it.

use vstd::prelude::*;

verus! {

/// Time between two polls of the pulse counter, in milliseconds.
pub const POLL_PERIOD_MS: u64 = 100;

/// Lower bound of the cumulative count.
pub const COUNT_MIN: u8 = 0;

/// Upper bound of the cumulative count.
pub const COUNT_MAX: u8 = 100;

/// `x` limited to the closed range `[lo, hi]`.
pub open spec fn clamp_int(x: int, lo: int, hi: int) -> int {
    if x < lo {
        lo
    } else if x > hi {
        hi
    } else {
        x
    }
}

/// The difference `current - previous` of two 16-bit readings, wrapped into 16 bits.
pub open spec fn wrapped_delta(current: int, previous: int) -> int {
    let d = current - previous;
    if d > i16::MAX {
        d - 0x1_0000
    } else if d < i16::MIN {
        d + 0x1_0000
    } else {
        d
    }
}

/// Adds a signed `delta` to `value` and limits the sum to `[min, max]`.
pub fn saturating_add_custom_range(value: u8, delta: i16, min: u8, max: u8) -> (new: u8)
    requires
        min <= max,
    ensures
        new as int == clamp_int(value as int + delta as int, min as int, max as int),
{
    let sum: i32 = value as i32 + delta as i32;
    if sum < min as i32 {
        min
    } else if sum > max as i32 {
        max
    } else {
        sum as u8
    }
}

/// What one poll of the pulse counter publishes.
#[derive(Clone, Copy, Debug, PartialEq, Eq, Structural)]
pub struct EncoderUpdate {
    /// The change since the previous reading, if the reading changed.
    pub delta: Option<i16>,
    /// The new cumulative count, if it changed.
    pub count: Option<i16>,
}

/// Decoder state: the bounded cumulative count and the previous raw reading.
#[derive(Clone, Copy, Debug, PartialEq, Eq, Structural)]
pub struct EncoderDecoder {
    count: u8,
    last_value: i16,
}

impl EncoderDecoder {
    /// The cumulative count, as a number.
    pub closed spec fn count_value(self) -> int {
        self.count as int
    }

    /// The previous raw reading, as a number.
    pub closed spec fn last_reading(self) -> int {
        self.last_value as int
    }

    #[verifier::type_invariant]
    closed spec fn within_range(self) -> bool {
        COUNT_MIN <= self.count <= COUNT_MAX
    }

    /// The delta that a poll reading `current` publishes from this state, if any.
    pub open spec fn delta_for(self, current: int) -> Option<int> {
        if current == self.last_reading() {
            None
        } else {
            Some(wrapped_delta(current, self.last_reading()))
        }
    }

    /// The cumulative count after a poll reading `current` from this state.
    pub open spec fn count_after(self, current: int) -> int {
        match self.delta_for(current) {
            None => self.count_value(),
            Some(delta) => clamp_int(
                self.count_value() + delta,
                COUNT_MIN as int,
                COUNT_MAX as int,
            ),
        }
    }

    /// A decoder at count zero whose previous reading is zero.
    pub fn new() -> (decoder: EncoderDecoder)
        ensures
            decoder.count_value() == 0,
            decoder.last_reading() == 0,
    {
        EncoderDecoder { count: 0, last_value: 0 }
    }

    /// The cumulative count, always within `[COUNT_MIN, COUNT_MAX]`.
    pub fn count(&self) -> (count: u8)
        ensures
            count as int == self.count_value(),
            COUNT_MIN <= count <= COUNT_MAX,
    {
        proof {
            use_type_invariant(self);
        }
        self.count
    }

    /// The raw reading seen by the latest poll.
    pub fn last_value(&self) -> (value: i16)
        ensures
            value as int == self.last_reading(),
    {
        self.last_value
    }

    /// Takes in one reading of the pulse counter.
    ///
    /// An unchanged reading publishes nothing and leaves the decoder as it was.
    /// A changed reading publishes the wrapped difference, and the new count too
    /// if adding the difference moved it within its bounds.
    pub fn poll(&mut self, current_value: i16) -> (update: EncoderUpdate)
        ensures
            current_value as int == old(self).last_reading() ==> *final(self) == *old(self)
                && update.delta is None && update.count is None,
            final(self).last_reading() == current_value as int,
            final(self).count_value() == old(self).count_after(current_value as int),
            COUNT_MIN <= final(self).count_value() <= COUNT_MAX,
            match update.delta {
                None => old(self).delta_for(current_value as int) is None,
                Some(delta) => old(self).delta_for(current_value as int) == Some(delta as int),
            },
            match update.count {
                None => final(self).count_value() == old(self).count_value(),
                Some(count) => count as int == final(self).count_value()
                    && final(self).count_value() != old(self).count_value(),
            },
    {
        proof {
            use_type_invariant(&*self);
        }
        if current_value == self.last_value {
            return EncoderUpdate { delta: None, count: None };
        }
        let delta: i16 = current_value.wrapping_sub(self.last_value);
        self.last_value = current_value;
        let new_count: u8 = saturating_add_custom_range(self.count, delta, COUNT_MIN, COUNT_MAX);
        if new_count == self.count {
            return EncoderUpdate { delta: Some(delta), count: None };
        }
        self.count = new_count;
        EncoderUpdate { delta: Some(delta), count: Some(new_count as i16) }
    }
}

} // verus!
