use vstd::prelude::*;
use crate::board::Frame;
use crate::framebuffer::FRAME_BYTES;

verus! {

/// Commands sent to the LCD at start-up, in command mode: turn the chip on with
/// the extended command set, set the bias to 4 and the contrast to 60, go back
/// to the basic command set, and set normal display mode.
pub fn setup_commands() -> (cmds: [u8; 5])
    ensures
        cmds[0] == 0x21,
        cmds[1] == 0x14,
        cmds[2] == 0xbc,
        cmds[3] == 0x22,
        cmds[4] == 0x0c,
{
    let cmds: [u8; 5] = [0x20u8 | 0x1u8, 0x10u8 | 4u8, 0x80u8 | 60u8, 0x20u8 | 0x2u8, 0x08u8 | 0x4u8];
    assert(0x20u8 | 0x1u8 == 0x21u8 && 0x10u8 | 4u8 == 0x14u8 && 0x80u8 | 60u8 == 0xbcu8 && 0x20u8
        | 0x2u8 == 0x22u8 && 0x08u8 | 0x4u8 == 0x0cu8) by (bit_vector);
    cmds
}

/// Commands sent, in command mode, before a frame: vertical addressing, then
/// column 0 and bank 0.
pub fn frame_commands() -> (cmds: [u8; 3])
    ensures
        cmds[0] == 0x22,
        cmds[1] == 0x80,
        cmds[2] == 0x40,
{
    let cmds: [u8; 3] = [0x20u8 | 0x2u8, 0x80u8 | 0u8, 0x40u8 | 0u8];
    assert(0x20u8 | 0x2u8 == 0x22u8 && 0x80u8 | 0u8 == 0x80u8 && 0x40u8 | 0u8 == 0x40u8)
        by (bit_vector);
    cmds
}

/// The data bytes of a frame, in the order the LCD takes them in vertical
/// addressing: column by column, the six banks of each column top to bottom.
pub fn frame_data(pixels: &Frame) -> (data: Vec<u8>)
    ensures
        data.len() == FRAME_BYTES,
        forall|k: int| 0 <= k < FRAME_BYTES ==> #[trigger] data[k] == pixels[k / 6][k % 6],
{
    let mut data: Vec<u8> = Vec::new();
    let mut c: usize = 0;
    while c < 84
        invariant
            c <= 84,
            data.len() == c * 6,
            forall|k: int| 0 <= k < c * 6 ==> #[trigger] data[k] == pixels[k / 6][k % 6],
        decreases 84 - c,
    {
        let mut r: usize = 0;
        while r < 6
            invariant
                c < 84,
                r <= 6,
                data.len() == c * 6 + r,
                forall|k: int| 0 <= k < c * 6 + r ==> #[trigger] data[k] == pixels[k / 6][k % 6],
            decreases 6 - r,
        {
            data.push(pixels[c][r]);
            proof {
                let k = c * 6 + r;
                assert(k / 6 == c && k % 6 == r);
            }
            r = r + 1;
        }
        c = c + 1;
    }
    data
}

} // verus!
