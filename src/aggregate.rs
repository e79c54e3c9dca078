//! The latest known value of each measurement channel.
use vstd::prelude::*;

use crate::message::MessageBody;

verus! {

/// Whether `bits` is the bit pattern of an `f32` greater than zero: sign bit clear, not zero,
/// and not a NaN (positive infinity counts as greater than zero).
pub open spec fn is_positive_f32(bits: u32) -> bool {
    0 < bits <= 0x7f80_0000
}

/// Checks whether `bits` is the bit pattern of an `f32` greater than zero.
pub fn positive_f32(bits: u32) -> (r: bool)
    ensures
        r == is_positive_f32(bits),
{
    0 < bits && bits <= 0x7f80_0000
}

/// Latest snapshot of the respiratory rate, distance and heart rate, as `f32` bit patterns.
///
/// A value that is not greater than zero is treated as implausible and never stored, for
/// all three channels; the previous value is kept instead.
#[derive(Debug, Clone, Copy, PartialEq, Eq, Structural)]
pub struct Data {
    pub respiratory: u32,
    pub distance: u32,
    pub heartbeat: u32,
}

/// The snapshot after folding in `m`.
pub open spec fn spec_update(d: Data, m: MessageBody) -> Data {
    match m {
        MessageBody::Respiratory(rate) if is_positive_f32(rate) => Data { respiratory: rate, ..d },
        MessageBody::Distance(Some(distance)) if is_positive_f32(distance) => Data { distance, ..d },
        MessageBody::Heartbeat(rate) if is_positive_f32(rate) => Data { heartbeat: rate, ..d },
        _ => d,
    }
}

impl Default for Data {
    /// All channels at zero.
    fn default() -> (r: Data)
        ensures
            r == (Data { respiratory: 0, distance: 0, heartbeat: 0 }),
    {
        Data { respiratory: 0, distance: 0, heartbeat: 0 }
    }
}

impl Data {
    /// All channels at zero.
    pub fn new() -> (r: Data)
        ensures
            r == (Data { respiratory: 0, distance: 0, heartbeat: 0 }),
    {
        Data { respiratory: 0, distance: 0, heartbeat: 0 }
    }

    /// Folds one message into the snapshot.
    pub fn update(&mut self, message: MessageBody)
        ensures
            *final(self) == spec_update(*old(self), message),
    {
        match message {
            MessageBody::Respiratory(rate) => {
                if positive_f32(rate) {
                    self.respiratory = rate;
                }
            },
            MessageBody::Distance(Some(distance)) => {
                if positive_f32(distance) {
                    self.distance = distance;
                }
            },
            MessageBody::Heartbeat(rate) => {
                if positive_f32(rate) {
                    self.heartbeat = rate;
                }
            },
            _ => {},
        }
    }
}

} // verus!
