use vstd::prelude::*;

verus! {

/// 23K640 instruction: write the status register.
pub const WRSR: u8 = 0x01;

/// 23K640 instruction: write data.
pub const WRITE: u8 = 0x02;

/// 23K640 instruction: read data.
pub const READ: u8 = 0x03;

/// Bytes sent to the RAM chip at start-up: set byte mode in its status register.
pub fn setup_command() -> (cmd: [u8; 2])
    ensures
        cmd[0] == WRSR,
        cmd[1] == 0x00,
{
    [WRSR, 0x00]
}

/// Splits an address into the high and low byte that the RAM chip takes, high
/// byte first.
fn address_bytes(addr: u16) -> (r: (u8, u8))
    ensures
        r.0 == addr / 256,
        r.1 == addr % 256,
{
    let hi = (addr >> 8u16) as u8;
    let lo = addr as u8;
    assert(hi == addr / 256 && lo == addr % 256) by (bit_vector)
        requires
            hi == (addr >> 8u16) as u8,
            lo == addr as u8,
    ;
    (hi, lo)
}

/// Bytes sent to the RAM chip to store `value` at `addr`.
pub fn write_command(addr: u16, value: u8) -> (cmd: [u8; 4])
    ensures
        cmd[0] == WRITE,
        cmd[1] == addr / 256,
        cmd[2] == addr % 256,
        cmd[1] * 256 + cmd[2] == addr,
        cmd[3] == value,
{
    let (hi, lo) = address_bytes(addr);
    [WRITE, hi, lo, value]
}

/// Bytes sent to the RAM chip to read the byte at `addr`; the chip answers the
/// last of them with that byte.
pub fn read_command(addr: u16) -> (cmd: [u8; 4])
    ensures
        cmd[0] == READ,
        cmd[1] == addr / 256,
        cmd[2] == addr % 256,
        cmd[1] * 256 + cmd[2] == addr,
        cmd[3] == 0,
{
    let (hi, lo) = address_bytes(addr);
    [READ, hi, lo, 0]
}

/// The byte read: the chip's answer to the last byte of a read command.
pub fn read_reply(replies: [u8; 4]) -> (value: u8)
    ensures
        value == replies[3],
{
    replies[3]
}

} // verus!
