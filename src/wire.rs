//! Bit-exact framing of the Command Block Wrapper (31 bytes) and the Command
//! Status Wrapper (13 bytes).
use vstd::prelude::*;

verus! {

/// "USBC", little-endian.
pub const CBW_SIGNATURE: u32 = 0x43425355;

/// "USBS", little-endian.
pub const CSW_SIGNATURE: u32 = 0x53425355;

pub const CBW_LEN: usize = 31;

pub const CSW_LEN: usize = 13;

/// The longest command block a wrapper can carry.
pub const MAX_COMMAND_LEN: usize = 16;

/// The four little-endian bytes of `v`.
pub open spec fn le_bytes(v: u32) -> Seq<u8> {
    seq![(v % 256) as u8, ((v / 256) % 256) as u8, ((v / 65536) % 256) as u8, (v / 16777216) as u8]
}

/// The value of the four little-endian bytes of `s` at `i`.
pub open spec fn le_u32_at(s: Seq<u8>, i: int) -> u32 {
    (s[i] + 256 * s[i + 1] + 65536 * s[i + 2] + 16777216 * s[i + 3]) as u32
}

pub proof fn lemma_le_bytes_value(v: u32, s: Seq<u8>, i: int)
    requires
        0 <= i,
        i + 4 <= s.len(),
        s.subrange(i, i + 4) == le_bytes(v),
    ensures
        le_u32_at(s, i) == v,
{
    assert(s[i] == le_bytes(v)[0]);
    assert(s[i + 1] == le_bytes(v)[1]);
    assert(s[i + 2] == le_bytes(v)[2]);
    assert(s[i + 3] == le_bytes(v)[3]);
    assert((v % 256) + 256 * ((v / 256) % 256) + 65536 * ((v / 65536) % 256) + 16777216 * (v
        / 16777216) == v) by (nonlinear_arith);
}

fn put_u32_le(out: &mut Vec<u8>, v: u32)
    ensures
        final(out)@ == old(out)@ + le_bytes(v),
{
    out.push((v % 256) as u8);
    out.push(((v / 256) % 256) as u8);
    out.push(((v / 65536) % 256) as u8);
    out.push((v / 16777216) as u8);
    assert(final(out)@ =~= old(out)@ + le_bytes(v));
}

fn get_u32_le(s: &[u8], i: usize) -> (r: u32)
    requires
        i + 4 <= s@.len(),
    ensures
        r == le_u32_at(s@, i as int),
{
    s[i] as u32 + (s[i + 1] as u32) * 256 + (s[i + 2] as u32) * 65536 + (s[i + 3] as u32)
        * 16777216
}

/// Direction of the data phase, seen from the host.
#[derive(Clone, Copy, PartialEq, Eq, Debug, Structural)]
pub enum CbwDirection {
    Out,
    In,
}

/// The wire byte of a direction: bit 7 set for data towards the host.
pub open spec fn direction_byte(d: CbwDirection) -> u8 {
    match d {
        CbwDirection::Out => 0x00u8,
        CbwDirection::In => 0x80u8,
    }
}

/// Why a wrapper could not be encoded or decoded.
#[derive(Clone, Copy, PartialEq, Eq, Debug, Structural)]
pub enum WireError {
    /// The upper four bits of the logical unit number are reserved.
    ReservedLunBits,
    /// A command block holds at most sixteen bytes.
    CommandBlockTooLong,
    /// The input does not have the length of the wrapper.
    WrongLength,
    /// The first four bytes are not the wrapper's signature.
    BadSignature,
    /// The direction byte is neither 0x80 nor 0x00.
    UnknownDirection,
    /// The status byte is none of 0x00, 0x01, 0x02.
    UnknownStatus,
}

/// A Command Block Wrapper: the command phase of one transaction.
pub struct CommandBlockWrapper {
    pub tag: u32,
    pub data_transfer_length: u32,
    pub direction: CbwDirection,
    pub lun: u8,
    pub cbwcb: Vec<u8>,
}

/// What a Command Block Wrapper holds.
pub struct CbwView {
    pub tag: u32,
    pub data_transfer_length: u32,
    pub direction: CbwDirection,
    pub lun: u8,
    pub cbwcb: Seq<u8>,
}

impl View for CommandBlockWrapper {
    type V = CbwView;

    open spec fn view(&self) -> CbwView {
        CbwView {
            tag: self.tag,
            data_transfer_length: self.data_transfer_length,
            direction: self.direction,
            lun: self.lun,
            cbwcb: self.cbwcb@,
        }
    }
}

/// The first rule of the wrapper that `c` breaks, if any.
pub open spec fn cbw_check(c: CbwView) -> Option<WireError> {
    if c.lun >= 16 {
        Some(WireError::ReservedLunBits)
    } else if c.cbwcb.len() > 16 {
        Some(WireError::CommandBlockTooLong)
    } else {
        None
    }
}

/// The 31 bytes of a valid wrapper: signature, tag and transfer length
/// little-endian, the direction, LUN and command length bytes, the command
/// block, then zeros.
pub open spec fn encode_cbw(c: CbwView) -> Seq<u8> {
    le_bytes(CBW_SIGNATURE) + le_bytes(c.tag) + le_bytes(c.data_transfer_length) + seq![
        direction_byte(c.direction),
        c.lun,
        c.cbwcb.len() as u8,
    ] + c.cbwcb + Seq::new((16 - c.cbwcb.len()) as nat, |i: int| 0u8)
}

/// What a sequence of bytes decodes to as a Command Block Wrapper.
pub open spec fn decode_cbw(s: Seq<u8>) -> Result<CbwView, WireError> {
    if s.len() != 31 {
        Err(WireError::WrongLength)
    } else if le_u32_at(s, 0) != CBW_SIGNATURE {
        Err(WireError::BadSignature)
    } else if s[12] != 0x80 && s[12] != 0x00 {
        Err(WireError::UnknownDirection)
    } else if s[13] >= 16 {
        Err(WireError::ReservedLunBits)
    } else if s[14] > 16 {
        Err(WireError::CommandBlockTooLong)
    } else {
        Ok(
            CbwView {
                tag: le_u32_at(s, 4),
                data_transfer_length: le_u32_at(s, 8),
                direction: if s[12] == 0x80 {
                    CbwDirection::In
                } else {
                    CbwDirection::Out
                },
                lun: s[13],
                cbwcb: s.subrange(15, 15 + s[14]),
            },
        )
    }
}

impl CommandBlockWrapper {
    /// The wire form of the wrapper; fails, before anything is sent, on a
    /// LUN with reserved bits set or a command block over sixteen bytes.
    pub fn encode(&self) -> (r: Result<Vec<u8>, WireError>)
        ensures
            match r {
                Ok(bytes) => cbw_check(self@) is None && bytes@ == encode_cbw(self@),
                Err(e) => cbw_check(self@) == Some(e),
            },
    {
        let lun = self.lun;
        assert(lun & 0xf0 == 0 <==> lun < 16) by (bit_vector);
        if lun & 0xf0 != 0 {
            return Err(WireError::ReservedLunBits);
        }
        if self.cbwcb.len() > MAX_COMMAND_LEN {
            return Err(WireError::CommandBlockTooLong);
        }
        let mut out: Vec<u8> = Vec::new();
        put_u32_le(&mut out, CBW_SIGNATURE);
        put_u32_le(&mut out, self.tag);
        put_u32_le(&mut out, self.data_transfer_length);
        let direction: u8 = match self.direction {
            CbwDirection::Out => 0x00,
            CbwDirection::In => 0x80,
        };
        out.push(direction);
        out.push(self.lun);
        out.push(self.cbwcb.len() as u8);
        let ghost head = out@;
        let mut i: usize = 0;
        while i < self.cbwcb.len()
            invariant
                i <= self.cbwcb@.len(),
                out@ == head + self.cbwcb@.subrange(0, i as int),
            decreases self.cbwcb@.len() - i,
        {
            out.push(self.cbwcb[i]);
            i = i + 1;
            assert(out@ =~= head + self.cbwcb@.subrange(0, i as int));
        }
        let ghost body = out@;
        while out.len() < CBW_LEN
            invariant
                body.len() <= out@.len() <= 31,
                body.len() == 15 + self.cbwcb@.len(),
                out@ == body + Seq::new((out@.len() - body.len()) as nat, |i: int| 0u8),
            decreases 31 - out@.len(),
        {
            out.push(0);
            assert(out@ =~= body + Seq::new((out@.len() - body.len()) as nat, |i: int| 0u8));
        }
        assert(self.cbwcb@.subrange(0, self.cbwcb@.len() as int) =~= self.cbwcb@);
        assert(out@ =~= encode_cbw(self@));
        Ok(out)
    }

    /// Reads a wrapper back from its 31 bytes.
    pub fn decode(bytes: &[u8]) -> (r: Result<CommandBlockWrapper, WireError>)
        ensures
            match r {
                Ok(c) => decode_cbw(bytes@) == Ok::<CbwView, WireError>(c@),
                Err(e) => decode_cbw(bytes@) == Err::<CbwView, WireError>(e),
            },
    {
        if bytes.len() != CBW_LEN {
            return Err(WireError::WrongLength);
        }
        if get_u32_le(bytes, 0) != CBW_SIGNATURE {
            return Err(WireError::BadSignature);
        }
        let direction = if bytes[12] == 0x80 {
            CbwDirection::In
        } else if bytes[12] == 0x00 {
            CbwDirection::Out
        } else {
            return Err(WireError::UnknownDirection);
        };
        if bytes[13] >= 16 {
            return Err(WireError::ReservedLunBits);
        }
        if bytes[14] as usize > MAX_COMMAND_LEN {
            return Err(WireError::CommandBlockTooLong);
        }
        let end: usize = 15 + bytes[14] as usize;
        let mut cbwcb: Vec<u8> = Vec::new();
        let mut i: usize = 15;
        while i < end
            invariant
                15 <= i <= end <= 31,
                bytes@.len() == 31,
                cbwcb@ == bytes@.subrange(15, i as int),
            decreases end - i,
        {
            cbwcb.push(bytes[i]);
            i = i + 1;
            assert(cbwcb@ =~= bytes@.subrange(15, i as int));
        }
        let c = CommandBlockWrapper {
            tag: get_u32_le(bytes, 4),
            data_transfer_length: get_u32_le(bytes, 8),
            direction,
            lun: bytes[13],
            cbwcb,
        };
        assert(c@ == decode_cbw(bytes@)->Ok_0);
        Ok(c)
    }
}

/// Decoding the bytes of a valid Command Block Wrapper gives back every field,
/// and the bytes are always exactly 31.
pub proof fn lemma_cbw_round_trip(c: CbwView)
    requires
        cbw_check(c) is None,
    ensures
        encode_cbw(c).len() == 31,
        decode_cbw(encode_cbw(c)) == Ok::<CbwView, WireError>(c),
{
    let s = encode_cbw(c);
    assert(s.len() == 31);
    assert(s.subrange(0, 4) =~= le_bytes(CBW_SIGNATURE));
    lemma_le_bytes_value(CBW_SIGNATURE, s, 0);
    assert(s.subrange(4, 8) =~= le_bytes(c.tag));
    lemma_le_bytes_value(c.tag, s, 4);
    assert(s.subrange(8, 12) =~= le_bytes(c.data_transfer_length));
    lemma_le_bytes_value(c.data_transfer_length, s, 8);
    assert(s[12] == direction_byte(c.direction));
    assert(s[13] == c.lun);
    assert(s[14] == c.cbwcb.len() as u8);
    assert(s.subrange(15, 15 + s[14]) =~= c.cbwcb);
    let d = decode_cbw(s)->Ok_0;
    assert(d.direction == c.direction);
    assert(d =~= c);
}

/// Outcome of a command, as the device reports it.
#[derive(Clone, Copy, PartialEq, Eq, Debug, Structural)]
pub enum CswStatus {
    Passed,
    Failed,
    Error,
}

/// The status a byte stands for: 0x00, 0x01, 0x02 and nothing else.
pub open spec fn status_of_byte(b: u8) -> Option<CswStatus> {
    if b == 0x00 {
        Some(CswStatus::Passed)
    } else if b == 0x01 {
        Some(CswStatus::Failed)
    } else if b == 0x02 {
        Some(CswStatus::Error)
    } else {
        None
    }
}

impl CswStatus {
    pub fn from_byte(b: u8) -> (r: Option<CswStatus>)
        ensures
            r == status_of_byte(b),
    {
        if b == 0x00 {
            Some(CswStatus::Passed)
        } else if b == 0x01 {
            Some(CswStatus::Failed)
        } else if b == 0x02 {
            Some(CswStatus::Error)
        } else {
            None
        }
    }
}

/// A Command Status Wrapper: the status phase of one transaction.
#[derive(Clone, Copy, PartialEq, Eq, Debug, Structural)]
pub struct CommandStatusWrapper {
    pub tag: u32,
    pub data_residue: u32,
    pub status: CswStatus,
}

/// What a sequence of bytes decodes to as a Command Status Wrapper.
pub open spec fn decode_csw(s: Seq<u8>) -> Result<CommandStatusWrapper, WireError> {
    if s.len() != 13 {
        Err(WireError::WrongLength)
    } else if le_u32_at(s, 0) != CSW_SIGNATURE {
        Err(WireError::BadSignature)
    } else if status_of_byte(s[12]) is None {
        Err(WireError::UnknownStatus)
    } else {
        Ok(
            CommandStatusWrapper {
                tag: le_u32_at(s, 4),
                data_residue: le_u32_at(s, 8),
                status: status_of_byte(s[12])->Some_0,
            },
        )
    }
}

impl CommandStatusWrapper {
    /// Reads a status wrapper from its 13 bytes; a wrong signature or an
    /// unknown status byte is an error.
    pub fn decode(bytes: &[u8]) -> (r: Result<CommandStatusWrapper, WireError>)
        ensures
            r == decode_csw(bytes@),
    {
        if bytes.len() != CSW_LEN {
            return Err(WireError::WrongLength);
        }
        if get_u32_le(bytes, 0) != CSW_SIGNATURE {
            return Err(WireError::BadSignature);
        }
        match CswStatus::from_byte(bytes[12]) {
            None => Err(WireError::UnknownStatus),
            Some(status) => Ok(
                CommandStatusWrapper {
                    tag: get_u32_le(bytes, 4),
                    data_residue: get_u32_le(bytes, 8),
                    status,
                },
            ),
        }
    }
}

/// Any 13 bytes that do not open with the status signature are refused.
pub proof fn lemma_csw_signature_checked(s: Seq<u8>)
    requires
        s.len() == 13,
        le_u32_at(s, 0) != CSW_SIGNATURE,
    ensures
        decode_csw(s) == Err::<CommandStatusWrapper, WireError>(WireError::BadSignature),
{
}

} // verus!
