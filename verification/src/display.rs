//! The display as a frame of pixels, four bytes to the pixel.

use crate::state::State;
use vstd::prelude::*;

verus! {

/// Byte `channel` of a pixel: red, green, blue, then opacity. A lit pixel is
/// white, an unlit one black, both opaque.
pub open spec fn channel_value(lit: bool, channel: int) -> u8 {
    if channel == 3 || lit {
        255
    } else {
        0
    }
}

/// The frame `frame` with the display painted over it: each whole group of
/// four bytes holds one pixel, in the display's order; bytes behind the last
/// whole group stay.
pub open spec fn painted(display: Seq<bool>, frame: Seq<u8>) -> Seq<u8> {
    Seq::new(
        frame.len(),
        |b: int|
            if b / 4 < frame.len() / 4 {
                channel_value(display[b / 4], b % 4)
            } else {
                frame[b]
            },
    )
}

impl State {
    /// Paints the display over `frame`, which holds four bytes for each pixel
    /// and no more pixels than the display has.
    pub fn draw(&self, frame: &mut [u8])
        requires
            old(frame)@.len() / 4 <= 2048,
        ensures
            final(frame)@ == painted(self.display@, old(frame)@),
    {
        let pixels: usize = frame.len() / 4;
        let mut p: usize = 0;
        while p < pixels
            invariant
                p <= pixels,
                pixels == old(frame)@.len() / 4,
                pixels <= 2048,
                frame@.len() == old(frame)@.len(),
                forall|b: int|
                    0 <= b < frame@.len() ==> frame@[b] == if b / 4 < p {
                        channel_value(self.display@[b / 4], b % 4)
                    } else {
                        old(frame)@[b]
                    },
            decreases pixels - p,
        {
            let shade: u8 = if self.display[p] {
                255
            } else {
                0
            };
            frame[4 * p] = shade;
            frame[4 * p + 1] = shade;
            frame[4 * p + 2] = shade;
            frame[4 * p + 3] = 255;
            p += 1;
        }
        assert(frame@ =~= painted(self.display@, old(frame)@));
    }
}

} // verus!
