//! Access to the channels of a colour by name.

use vstd::prelude::*;
use crate::pixels::Rgb;

verus! {

/// A channel of an RGB colour.
#[derive(Debug, Clone, Copy, PartialEq, Eq, Hash, Structural)]
pub enum ColorChannel {
    R,
    G,
    B,
}

/// A colour whose channels can be read by name.
pub trait ColorIndex: Sized {
    type Component;

    /// The value of a channel.
    spec fn channel_value(self, channel: ColorChannel) -> Self::Component;

    fn channel(self, channel: ColorChannel) -> (r: Self::Component)
        ensures
            r == self.channel_value(channel),
    ;
}

impl ColorIndex for Rgb {
    type Component = u8;

    open spec fn channel_value(self, channel: ColorChannel) -> u8 {
        match channel {
            ColorChannel::R => self.r,
            ColorChannel::G => self.g,
            ColorChannel::B => self.b,
        }
    }

    fn channel(self, channel: ColorChannel) -> (r: u8) {
        match channel {
            ColorChannel::R => self.r,
            ColorChannel::G => self.g,
            ColorChannel::B => self.b,
        }
    }
}

} // verus!
