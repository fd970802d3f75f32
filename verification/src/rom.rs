use vstd::prelude::*;

verus! {

/// Where the font is loaded into CHIP-8 memory.
pub const FONT_START: u16 = 0x0000;

/// Where CHIP-8 programs are loaded and start.
pub const PROGRAM_START: u16 = 0x0200;

/// The RAM address of byte `offset` of an image loaded at `start`.
pub fn load_address(start: u16, offset: usize) -> (addr: u16)
    requires
        start + offset <= u16::MAX,
    ensures
        addr == start + offset,
{
    start + offset as u16
}

} // verus!
