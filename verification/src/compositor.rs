//! Frame compositing: write one RGBA value into every pixel of a frame.

use vstd::prelude::*;

verus! {

/// Fill every whole 4-byte pixel of the frame with the given RGBA value.
/// Trailing bytes that do not form a whole pixel are left unchanged; in
/// practice the buffer is width * height * 4 bytes and has none.
pub fn fill_frame(frame: &mut Vec<u8>, rgba: [u8; 4])
    ensures
        final(frame)@.len() == old(frame)@.len(),
        forall|i: int|
            0 <= i < final(frame)@.len() ==> final(frame)@[i] == (if i < 4 * (
            old(frame)@.len() as int / 4) {
                rgba@[i % 4]
            } else {
                old(frame)@[i]
            }),
{
    let n = frame.len() / 4;
    let mut p: usize = 0;
    while p < n
        invariant
            p <= n,
            n == frame@.len() as int / 4,
            4 * (n as int) <= usize::MAX,
            frame@.len() == old(frame)@.len(),
            forall|i: int|
                0 <= i < frame@.len() ==> frame@[i] == (if i < 4 * p {
                    rgba@[i % 4]
                } else {
                    old(frame)@[i]
                }),
        decreases n - p,
    {
        proof {
            assert(4 * (p + 1) <= 4 * n <= frame@.len());
            assert((4 * p as int) % 4 == 0);
            assert((4 * p as int + 1) % 4 == 1);
            assert((4 * p as int + 2) % 4 == 2);
            assert((4 * p as int + 3) % 4 == 3);
        }
        let base = 4 * p;
        frame[base] = rgba[0];
        frame[base + 1] = rgba[1];
        frame[base + 2] = rgba[2];
        frame[base + 3] = rgba[3];
        p += 1;
    }
}

} // verus!
