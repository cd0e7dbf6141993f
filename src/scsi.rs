//! The SCSI command blocks the driver sends, and the READ CAPACITY answer.
use vstd::prelude::*;

verus! {

pub const TEST_UNIT_READY: u8 = 0x00;

pub const READ_CAPACITY_10: u8 = 0x25;

pub const READ_10: u8 = 0x28;

/// The four big-endian bytes of `v`.
pub open spec fn be_bytes32(v: u32) -> Seq<u8> {
    seq![(v / 16777216) as u8, ((v / 65536) % 256) as u8, ((v / 256) % 256) as u8, (v % 256) as u8]
}

/// The two big-endian bytes of `v`.
pub open spec fn be_bytes16(v: u16) -> Seq<u8> {
    seq![(v / 256) as u8, (v % 256) as u8]
}

/// The value of the four big-endian bytes of `s` at `i`.
pub open spec fn be_u32_at(s: Seq<u8>, i: int) -> u32 {
    (16777216 * s[i] + 65536 * s[i + 1] + 256 * s[i + 2] + s[i + 3]) as u32
}

/// TEST UNIT READY: six zero bytes.
pub open spec fn test_unit_ready_block() -> Seq<u8> {
    Seq::new(6, |i: int| 0u8)
}

/// READ CAPACITY(10): the opcode and nine zero bytes.
pub open spec fn read_capacity_block() -> Seq<u8> {
    seq![READ_CAPACITY_10] + Seq::new(9, |i: int| 0u8)
}

/// READ(10): opcode, flags, the block address big-endian, group, the block
/// count big-endian, control.
pub open spec fn read_10_block(block_address: u32, transfer_length: u16) -> Seq<u8> {
    seq![READ_10, 0u8] + be_bytes32(block_address) + seq![0u8] + be_bytes16(transfer_length)
        + seq![0u8]
}

pub fn test_unit_ready_command() -> (r: Vec<u8>)
    ensures
        r@ == test_unit_ready_block(),
{
    let r: Vec<u8> = vec![TEST_UNIT_READY; 6];
    assert(r@ =~= test_unit_ready_block());
    r
}

pub fn read_capacity_command() -> (r: Vec<u8>)
    ensures
        r@ == read_capacity_block(),
{
    let mut r: Vec<u8> = vec![0u8; 10];
    r.set(0, READ_CAPACITY_10);
    assert(r@ =~= read_capacity_block());
    r
}

pub fn read_10_command(block_address: u32, transfer_length: u16) -> (r: Vec<u8>)
    ensures
        r@ == read_10_block(block_address, transfer_length),
{
    let mut r: Vec<u8> = Vec::new();
    r.push(READ_10);
    r.push(0);
    r.push((block_address / 16777216) as u8);
    r.push(((block_address / 65536) % 256) as u8);
    r.push(((block_address / 256) % 256) as u8);
    r.push((block_address % 256) as u8);
    r.push(0);
    r.push((transfer_length / 256) as u8);
    r.push((transfer_length % 256) as u8);
    r.push(0);
    assert(r@ =~= read_10_block(block_address, transfer_length));
    r
}

/// Bytes on a medium whose last block is `logical_block_address`: READ
/// CAPACITY reports the address of the last block, so the medium holds one
/// block more than that address.
pub open spec fn capacity_size(logical_block_address: u32, block_length: u32) -> int {
    (logical_block_address + 1) * block_length
}

/// The size of the medium, as READ CAPACITY(10) reports it.
#[derive(Clone, Copy, PartialEq, Eq, Debug, Structural)]
pub struct DeviceCapacity {
    /// Address of the last block.
    pub logical_block_address: u32,
    pub block_length: u32,
    /// Bytes on the medium.
    pub size: u64,
}

impl DeviceCapacity {
    pub open spec fn wf(&self) -> bool {
        self.size == capacity_size(self.logical_block_address, self.block_length)
    }

    pub fn new(logical_block_address: u32, block_length: u32) -> (r: DeviceCapacity)
        ensures
            r.logical_block_address == logical_block_address,
            r.block_length == block_length,
            r.wf(),
    {
        assert((logical_block_address + 1) * block_length <= 0x1_0000_0000u64 * 0xffff_ffffu64)
            by (nonlinear_arith)
            requires
                logical_block_address <= 0xffff_ffffu32,
                block_length <= 0xffff_ffffu32,
        ;
        let size = (logical_block_address as u64 + 1) * block_length as u64;
        DeviceCapacity { logical_block_address, block_length, size }
    }

    /// Reads the eight-byte answer to READ CAPACITY(10): the last block
    /// address, then the block length, both big-endian.
    pub fn from_response(bytes: &[u8]) -> (r: Option<DeviceCapacity>)
        ensures
            match r {
                Some(c) => {
                    &&& bytes@.len() == 8
                    &&& c.logical_block_address == be_u32_at(bytes@, 0)
                    &&& c.block_length == be_u32_at(bytes@, 4)
                    &&& c.wf()
                },
                None => bytes@.len() != 8,
            },
    {
        if bytes.len() != 8 {
            return None;
        }
        let lba = (bytes[0] as u32) * 16777216 + (bytes[1] as u32) * 65536 + (bytes[2] as u32)
            * 256 + bytes[3] as u32;
        let block_length = (bytes[4] as u32) * 16777216 + (bytes[5] as u32) * 65536
            + (bytes[6] as u32) * 256 + bytes[7] as u32;
        Some(DeviceCapacity::new(lba, block_length))
    }
}

} // verus!
