//! The Bulk-Only Transport driver: tag sequencing, the three-phase
//! transaction, the SCSI operations, and a seekable byte stream over the
//! medium.
use vstd::prelude::*;

use crate::scsi::{
    capacity_size, read_10_block, read_10_command, read_capacity_block, read_capacity_command,
    test_unit_ready_block, test_unit_ready_command, DeviceCapacity, be_u32_at,
};
use crate::wire::{
    le_u32_at, lemma_cbw_round_trip, decode_csw, encode_cbw, CbwDirection, CbwView, CommandBlockWrapper, CommandStatusWrapper,
    CswStatus, WireError, CBW_LEN, CSW_LEN,
};

verus! {

/// Every transport call gives up after one second.
pub const TRANSFER_TIMEOUT_NS: u64 = 1_000_000_000;

/// Host to device, class request, addressed to an interface.
pub const RESET_REQUEST_TYPE: u8 = 0x21;

/// The class-specific Bulk-Only Mass Storage Reset request.
pub const BULK_ONLY_RESET: u8 = 0xff;

/// The largest block count a READ(10) can carry.
pub const MAX_TRANSFER_BLOCKS: u64 = 0xffff;

/// A failure reported by the transport.
#[derive(Clone, Copy, PartialEq, Eq, Debug, Structural)]
pub enum TransportError {
    Timeout,
    Stall,
    Disconnected,
    Other,
}

/// Bulk and control transfers on one USB device. A backend may talk to the
/// device through a native library or through a sandboxed runtime; the
/// driver only needs these three calls.
pub trait BulkTransport {
    /// Writes `data` to a bulk OUT endpoint; returns the count written.
    fn write_bulk(&mut self, endpoint: u8, data: &[u8], timeout_ns: u64) -> Result<
        usize,
        TransportError,
    >;

    /// Reads at most `max_len` bytes from a bulk IN endpoint.
    fn read_bulk(&mut self, endpoint: u8, max_len: usize, timeout_ns: u64) -> Result<
        Vec<u8>,
        TransportError,
    >;

    /// A control transfer from host to device; returns the count written.
    fn write_control(
        &mut self,
        request_type: u8,
        request: u8,
        value: u16,
        index: u16,
        data: &[u8],
        timeout_ns: u64,
    ) -> Result<usize, TransportError>;
}

/// How a status phase, or the data it vouches for, let the driver down.
#[derive(Clone, Copy, PartialEq, Eq, Debug, Structural)]
pub enum ProtocolError {
    /// The status wrapper could not be decoded.
    Malformed(WireError),
    /// The status wrapper answers another command.
    TagMismatch,
    /// The command did not pass.
    NotPassed(CswStatus),
    /// The device sent more data than was asked for.
    Overrun,
    /// The device sent less data than the operation needs.
    ShortData,
}

/// Why an operation of the driver failed.
#[derive(Clone, Copy, PartialEq, Eq, Debug, Structural)]
pub enum StorageError {
    /// A read would reach past the end of the medium or of the window.
    OutOfRange,
    /// The request needs more blocks or bytes than one READ(10) can carry.
    TransferTooLarge,
    /// Every tag of the session has been used.
    TagsExhausted,
    /// An earlier failure left the device in an unknown state: reset it.
    Unusable,
    /// The device did not report itself ready.
    NotReady,
    /// The transport failed.
    Transport(TransportError),
    /// The transport wrote fewer bytes than it was given.
    ShortWrite,
    /// The device broke the protocol.
    Protocol(ProtocolError),
}

/// A call of the transport, with what it came back with.
pub enum BusEvent {
    /// A write of `bytes` to a bulk OUT endpoint.
    Sent { endpoint: u8, bytes: Seq<u8>, result: Result<usize, TransportError> },
    /// A read of at most `requested` bytes from a bulk IN endpoint.
    Received { endpoint: u8, requested: nat, answer: Result<Seq<u8>, TransportError> },
    /// A control transfer without payload.
    Control {
        request_type: u8,
        request: u8,
        value: u16,
        index: u16,
        result: Result<usize, TransportError>,
    },
}

/// Where a seek goes.
#[derive(Clone, Copy, PartialEq, Eq, Debug, Structural)]
pub enum SeekFrom {
    Start(u64),
    End(i64),
    Current(i64),
}

/// `base + delta`, held within the range of `u64`.
pub open spec fn saturating_offset(base: u64, delta: i64) -> u64 {
    if base + delta < 0 {
        0
    } else if base + delta > u64::MAX {
        u64::MAX
    } else {
        (base + delta) as u64
    }
}

pub fn saturating_add_signed(base: u64, delta: i64) -> (r: u64)
    ensures
        r == saturating_offset(base, delta),
{
    let sum: i128 = base as i128 + delta as i128;
    if sum < 0 {
        0
    } else if sum > u64::MAX as i128 {
        u64::MAX
    } else {
        sum as u64
    }
}

/// The position a seek from `current` lands on, in a stream of `size` bytes.
pub open spec fn seek_target(current: u64, size: u64, pos: SeekFrom) -> u64 {
    match pos {
        SeekFrom::Start(p) => p,
        SeekFrom::End(d) => saturating_offset(size, d),
        SeekFrom::Current(d) => saturating_offset(current, d),
    }
}

/// Tags that only grow.
pub open spec fn tags_increasing(tags: Seq<u32>) -> bool {
    forall|i: int, j: int| 0 <= i < j < tags.len() ==> tags[i] < tags[j]
}

/// What a driver holds: its fixed setup, the stream position, the tag
/// counter, whether it may be used, every tag it has issued, and every
/// transfer the transport carried out for it.
pub struct DeviceState {
    pub capacity: DeviceCapacity,
    pub interface_number: u8,
    pub endpoint_in: u8,
    pub endpoint_out: u8,
    pub position: u64,
    pub tag: u32,
    pub usable: bool,
    pub issued_tags: Seq<u32>,
    pub bus: Seq<BusEvent>,
}

impl DeviceState {
    pub open spec fn wf(&self) -> bool {
        &&& self.capacity.wf()
        &&& tags_increasing(self.issued_tags)
        &&& forall|i: int| 0 <= i < self.issued_tags.len() ==> self.issued_tags[i] <= self.tag
    }

    /// The parts that no operation changes.
    pub open spec fn same_setup(&self, other: DeviceState) -> bool {
        &&& self.capacity == other.capacity
        &&& self.interface_number == other.interface_number
        &&& self.endpoint_in == other.endpoint_in
        &&& self.endpoint_out == other.endpoint_out
    }
}

/// The tags issued by a driver never repeat: each one is larger than every
/// tag issued before it.
pub proof fn lemma_issued_tags_distinct(s: DeviceState, i: int, j: int)
    requires
        s.wf(),
        0 <= i < j < s.issued_tags.len(),
    ensures
        s.issued_tags[i] < s.issued_tags[j],
        s.issued_tags[i] != s.issued_tags[j],
{
}

/// The wrapper the driver sends: logical unit zero.
pub open spec fn command_wrapper(
    tag: u32,
    direction: CbwDirection,
    length: u32,
    command: Seq<u8>,
) -> Seq<u8> {
    encode_cbw(
        CbwView { tag, data_transfer_length: length, direction, lun: 0, cbwcb: command },
    )
}

/// How the driver judges a status phase that answered the command `tag`.
pub open spec fn status_verdict(bytes: Seq<u8>, tag: u32) -> Result<CswStatus, StorageError> {
    match decode_csw(bytes) {
        Err(e) => Err(StorageError::Protocol(ProtocolError::Malformed(e))),
        Ok(csw) => if csw.tag != tag {
            Err(StorageError::Protocol(ProtocolError::TagMismatch))
        } else {
            Ok(csw.status)
        },
    }
}

/// Judges the bytes of a status phase that answered the command `tag`: they
/// must decode and carry that tag.
pub fn check_status(bytes: &[u8], tag: u32) -> (r: Result<CswStatus, StorageError>)
    ensures
        r == status_verdict(bytes@, tag),
{
    match CommandStatusWrapper::decode(bytes) {
        Err(e) => Err(StorageError::Protocol(ProtocolError::Malformed(e))),
        Ok(csw) => if csw.tag != tag {
            Err(StorageError::Protocol(ProtocolError::TagMismatch))
        } else {
            Ok(csw.status)
        },
    }
}

/// What a read of the transport came back with, the bytes as a sequence.
pub open spec fn received_view(r: Result<Vec<u8>, TransportError>) -> Result<
    Seq<u8>,
    TransportError,
> {
    match r {
        Ok(v) => Ok(v@),
        Err(e) => Err(e),
    }
}

/// The outcome of a transaction: the data received and the status reported.
pub open spec fn outcome_view(r: Result<(Vec<u8>, CswStatus), StorageError>) -> Result<
    (Seq<u8>, CswStatus),
    StorageError,
> {
    match r {
        Ok((data, status)) => Ok((data@, status)),
        Err(e) => Err(e),
    }
}

/// The status phase: one read of thirteen bytes from the IN endpoint,
/// judged against `tag`; `data` is what the data phase brought.
#[verifier::opaque]
pub open spec fn status_phase(ev: Seq<BusEvent>, endpoint_in: u8, tag: u32, data: Seq<u8>) -> Option<
    Result<(Seq<u8>, CswStatus), StorageError>,
> {
    if ev.len() != 1 {
        None
    } else {
        match ev[0] {
            BusEvent::Received { endpoint, requested, answer } => if endpoint == endpoint_in
                && requested == 13 {
                match answer {
                    Err(e) => Some(Err(StorageError::Transport(e))),
                    Ok(s) => match status_verdict(s, tag) {
                        Err(e) => Some(Err(e)),
                        Ok(status) => Some(Ok((data, status))),
                    },
                }
            } else {
                None
            },
            _ => None,
        }
    }
}

/// The data phase towards the host: one read of `length` bytes at most,
/// then the status phase.
#[verifier::opaque]
pub open spec fn data_phase(ev: Seq<BusEvent>, endpoint_in: u8, tag: u32, length: u32) -> Option<
    Result<(Seq<u8>, CswStatus), StorageError>,
> {
    if ev.len() == 0 {
        None
    } else {
        match ev[0] {
            BusEvent::Received { endpoint, requested, answer } => if endpoint == endpoint_in
                && requested == length {
                match answer {
                    Err(e) => if ev.len() == 1 {
                        Some(Err(StorageError::Transport(e)))
                    } else {
                        None
                    },
                    Ok(d) => if d.len() > length {
                        if ev.len() == 1 {
                            Some(Err(StorageError::Protocol(ProtocolError::Overrun)))
                        } else {
                            None
                        }
                    } else {
                        status_phase(ev.drop_first(), endpoint_in, tag, d)
                    },
                }
            } else {
                None
            },
            _ => None,
        }
    }
}

/// The calls of the transport that one transaction makes, in order, and
/// what the transaction yields for each answer they got; `None` when `ev`
/// is not such a run of calls. The command phase writes the wrapper; a
/// failed or short write ends the transaction. Data declared towards the
/// host is read next: a failed read or more data than declared ends it.
/// Then the status is read and judged.
#[verifier::opaque]
pub open spec fn exchange(
    ev: Seq<BusEvent>,
    endpoint_in: u8,
    endpoint_out: u8,
    tag: u32,
    direction: CbwDirection,
    command: Seq<u8>,
    length: u32,
) -> Option<Result<(Seq<u8>, CswStatus), StorageError>> {
    if ev.len() == 0 {
        None
    } else {
        match ev[0] {
            BusEvent::Sent { endpoint, bytes, result } => if endpoint == endpoint_out && bytes
                == command_wrapper(tag, direction, length, command) {
                match result {
                    Err(e) => if ev.len() == 1 {
                        Some(Err(StorageError::Transport(e)))
                    } else {
                        None
                    },
                    Ok(n) => if n != 31 {
                        if ev.len() == 1 {
                            Some(Err(StorageError::ShortWrite))
                        } else {
                            None
                        }
                    } else if direction == CbwDirection::In && length > 0 {
                        data_phase(ev.drop_first(), endpoint_in, tag, length)
                    } else {
                        status_phase(ev.drop_first(), endpoint_in, tag, Seq::empty())
                    },
                }
            } else {
                None
            },
            _ => None,
        }
    }
}

/// The calls `after` records beyond those of `before`.
pub open spec fn new_events(before: DeviceState, after: DeviceState) -> Seq<BusEvent> {
    after.bus.subrange(before.bus.len() as int, after.bus.len() as int)
}

/// `after` is `before` with one more transaction begun: the next tag
/// issued, the record of calls extended, the setup kept.
pub open spec fn ran_transaction(before: DeviceState, after: DeviceState) -> bool {
    &&& before.tag < u32::MAX
    &&& after.tag == before.tag + 1
    &&& after.issued_tags == before.issued_tags.push(after.tag)
    &&& before.bus.len() <= after.bus.len()
    &&& after.bus.subrange(0, before.bus.len() as int) == before.bus
    &&& after.same_setup(before)
}

/// What the transaction that takes `before` to `after` yielded.
pub open spec fn transaction_outcome(
    before: DeviceState,
    after: DeviceState,
    direction: CbwDirection,
    command: Seq<u8>,
    length: u32,
) -> Option<Result<(Seq<u8>, CswStatus), StorageError>> {
    exchange(
        new_events(before, after),
        before.endpoint_in,
        before.endpoint_out,
        (before.tag + 1) as u32,
        direction,
        command,
        length,
    )
}

/// TEST UNIT READY's answer: whether the command passed.
pub open spec fn ready_outcome(o: Result<(Seq<u8>, CswStatus), StorageError>) -> Result<
    bool,
    StorageError,
> {
    match o {
        Ok((_, status)) => Ok(status == CswStatus::Passed),
        Err(e) => Err(e),
    }
}

/// The data of a transaction, when its command passed.
pub open spec fn passed_data(o: Result<(Seq<u8>, CswStatus), StorageError>) -> Result<
    Seq<u8>,
    StorageError,
> {
    match o {
        Err(e) => Err(e),
        Ok((data, status)) => if status == CswStatus::Passed {
            Ok(data)
        } else {
            Err(StorageError::Protocol(ProtocolError::NotPassed(status)))
        },
    }
}

/// The capacity of the medium from a READ CAPACITY(10) transaction.
pub open spec fn capacity_outcome(o: Result<(Seq<u8>, CswStatus), StorageError>) -> Result<
    DeviceCapacity,
    StorageError,
> {
    match passed_data(o) {
        Err(e) => Err(e),
        Ok(d) => if d.len() == 8 {
            Ok(capacity_of(d))
        } else {
            Err(StorageError::Protocol(ProtocolError::ShortData))
        },
    }
}

/// The `len` bytes from `start` of the blocks a passed READ(10) returned.
pub open spec fn cut_outcome(o: Result<(Seq<u8>, CswStatus), StorageError>, start: int, len: int) -> Result<
    Seq<u8>,
    StorageError,
> {
    match passed_data(o) {
        Err(e) => Err(e),
        Ok(d) => if start + len <= d.len() {
            Ok(d.subrange(start, start + len))
        } else {
            Err(StorageError::Protocol(ProtocolError::ShortData))
        },
    }
}

/// The capacity that an answer to READ CAPACITY(10) reports.
pub open spec fn capacity_of(data: Seq<u8>) -> DeviceCapacity {
    DeviceCapacity {
        logical_block_address: be_u32_at(data, 0),
        block_length: be_u32_at(data, 4),
        size: capacity_size(be_u32_at(data, 0), be_u32_at(data, 4)) as u64,
    }
}

/// What a reset yields, given the call that sent it: `None` unless the
/// call is the Bulk-Only Mass Storage Reset addressed to `interface_number`.
pub open spec fn reset_outcome(e: BusEvent, interface_number: u8) -> Option<Result<(), StorageError>> {
    match e {
        BusEvent::Control { request_type, request, value, index, result } => if request_type
            == RESET_REQUEST_TYPE && request == BULK_ONLY_RESET && value == 0 && index
            == interface_number as u16 {
            match result {
                Ok(_) => Some(Ok(())),
                Err(e) => Some(Err(StorageError::Transport(e))),
            }
        } else {
            None
        },
        _ => None,
    }
}

/// The first block that holds the byte at `offset`.
pub open spec fn first_block(offset: int, block_length: int) -> int {
    offset / block_length
}

/// How many blocks hold the `len` bytes from `offset`:
/// `ceil((offset + len) / block_length) - first_block`.
pub open spec fn blocks_spanned(offset: int, len: int, block_length: int) -> int {
    (offset + len + block_length - 1) / block_length - offset / block_length
}

/// A read of `len` bytes at the stream position of `before`: `r` is what
/// it yields (the bytes read, or the error) and `after` the state it leaves.
/// A read that would end past the medium, on an unusable device, that no
/// single READ(10) can carry, or with no tag left fails before any call of
/// the transport. Otherwise one READ(10) over the blocks that hold the bytes
/// is run, and the bytes are cut out of the blocks it returned.
pub open spec fn stream_read(
    before: DeviceState,
    after: DeviceState,
    len: int,
    r: Result<Seq<u8>, StorageError>,
) -> bool {
    let pos = before.position as int;
    let block_length = before.capacity.block_length as int;
    let count = blocks_spanned(pos, len, block_length);
    if len == 0 {
        r == Ok::<Seq<u8>, StorageError>(Seq::empty()) && after == before
    } else if pos + len > before.capacity.size {
        r == Err::<Seq<u8>, StorageError>(StorageError::OutOfRange) && after == before
    } else if !before.usable {
        r == Err::<Seq<u8>, StorageError>(StorageError::Unusable) && after == before
    } else if count > MAX_TRANSFER_BLOCKS || count * block_length > u32::MAX {
        r == Err::<Seq<u8>, StorageError>(StorageError::TransferTooLarge) && after == before
    } else if before.tag == u32::MAX {
        r == Err::<Seq<u8>, StorageError>(StorageError::TagsExhausted) && after == before
    } else {
        &&& ran_transaction(before, after)
        &&& match transaction_outcome(
            before,
            after,
            CbwDirection::In,
            read_10_block(first_block(pos, block_length) as u32, count as u16),
            (count * block_length) as u32,
        ) {
            Some(o) => r == cut_outcome(o, pos % block_length, len),
            None => false,
        }
        &&& after.usable == r is Ok
        &&& after.position == if r is Ok {
            pos + len
        } else {
            pos
        }
    }
}

/// A transaction fails only through the transport or the device: never
/// with an error the driver raises before it begins. One that succeeds
/// made two calls, or three with a data phase.
pub proof fn lemma_exchange_shape(
    ev: Seq<BusEvent>,
    endpoint_in: u8,
    endpoint_out: u8,
    tag: u32,
    direction: CbwDirection,
    command: Seq<u8>,
    length: u32,
)
    ensures
        exchange(ev, endpoint_in, endpoint_out, tag, direction, command, length) matches Some(
            Err(e),
        ) ==> e is Transport || e is ShortWrite || e is Protocol,
        exchange(ev, endpoint_in, endpoint_out, tag, direction, command, length) matches Some(
            Ok(_),
        ) ==> ev.len() == if direction == CbwDirection::In && length > 0 {
            3int
        } else {
            2int
        },
{
    reveal(exchange);
    reveal(data_phase);
    reveal(status_phase);
}

/// The wrapper of a transaction carries its tag, little-endian, in bytes
/// 4 to 8: the tags on the wire are the issued tags, which only grow.
pub proof fn lemma_wrapper_carries_tag(
    tag: u32,
    direction: CbwDirection,
    length: u32,
    command: Seq<u8>,
)
    requires
        command.len() <= 16,
    ensures
        command_wrapper(tag, direction, length, command).len() == 31,
        le_u32_at(command_wrapper(tag, direction, length, command), 4) == tag,
{
    let c = CbwView { tag, data_transfer_length: length, direction, lun: 0, cbwcb: command };
    lemma_cbw_round_trip(c);
}

/// Of two transactions run one after the other, with any operations
/// between them, the later one's wrapper carries the larger tag.
pub proof fn lemma_later_wrapper_larger_tag(
    a: DeviceState,
    b: DeviceState,
    c: DeviceState,
    d: DeviceState,
    first: Seq<u8>,
    second: Seq<u8>,
    direction1: CbwDirection,
    direction2: CbwDirection,
    length1: u32,
    length2: u32,
)
    requires
        ran_transaction(a, b),
        b.tag <= c.tag,
        ran_transaction(c, d),
        first.len() <= 16,
        second.len() <= 16,
    ensures
        le_u32_at(command_wrapper(b.tag, direction1, length1, first), 4) < le_u32_at(
            command_wrapper(d.tag, direction2, length2, second),
            4,
        ),
{
    lemma_wrapper_carries_tag(b.tag, direction1, length1, first);
    lemma_wrapper_carries_tag(d.tag, direction2, length2, second);
}

/// A transaction whose status phase reported anything but `Passed` yields
/// no data: a READ(10) or READ CAPACITY(10) that meets it fails.
pub proof fn lemma_unpassed_status_never_succeeds(
    ev: Seq<BusEvent>,
    endpoint_in: u8,
    endpoint_out: u8,
    tag: u32,
    command: Seq<u8>,
    length: u32,
    status_bytes: Seq<u8>,
)
    requires
        exchange(ev, endpoint_in, endpoint_out, tag, CbwDirection::In, command, length) is Some,
        ev.len() > 0,
        ev.last() == (BusEvent::Received {
            endpoint: endpoint_in,
            requested: 13,
            answer: Ok::<Seq<u8>, TransportError>(status_bytes),
        }),
        decode_csw(status_bytes) matches Ok(csw) && csw.status != CswStatus::Passed,
    ensures
        passed_data(
            exchange(ev, endpoint_in, endpoint_out, tag, CbwDirection::In, command, length)->Some_0,
        ) is Err,
{
    reveal(exchange);
    reveal(data_phase);
    reveal(status_phase);
    if length > 0 && ev.len() >= 3 {
        assert(ev.drop_first().drop_first() =~= seq![ev.last()]);
    } else if ev.len() >= 2 {
        assert(ev.drop_first() =~= seq![ev.last()]);
    }
}

/// A Bulk-Only Transport mass storage device on one logical unit, read as
/// a seekable stream of bytes.
pub struct MassStorageDevice<T: BulkTransport> {
    capacity: DeviceCapacity,
    transport: T,
    interface_number: u8,
    endpoint_in: u8,
    endpoint_out: u8,
    seek_position: u64,
    tag: u32,
    usable: bool,
    issued_tags: Ghost<Seq<u32>>,
    bus: Ghost<Seq<BusEvent>>,
}

impl<T: BulkTransport> View for MassStorageDevice<T> {
    type V = DeviceState;

    closed spec fn view(&self) -> DeviceState {
        DeviceState {
            capacity: self.capacity,
            interface_number: self.interface_number,
            endpoint_in: self.endpoint_in,
            endpoint_out: self.endpoint_out,
            position: self.seek_position,
            tag: self.tag,
            usable: self.usable,
            issued_tags: self.issued_tags@,
            bus: self.bus@,
        }
    }
}

impl<T: BulkTransport> MassStorageDevice<T> {
    pub open spec fn wf(&self) -> bool {
        self@.wf()
    }

    /// One complete transaction: the command phase with the next tag, the
    /// data phase when data is declared towards the host, and the status
    /// phase, which must decode and answer the tag. Any failure leaves the
    /// device unusable.
    fn transact(&mut self, direction: CbwDirection, command: Vec<u8>, length: u32) -> (r: Result<
        (Vec<u8>, CswStatus),
        StorageError,
    >)
        requires
            old(self).wf(),
            old(self)@.usable,
            old(self)@.tag < u32::MAX,
            command@.len() <= 16,
        ensures
            final(self).wf(),
            ran_transaction(old(self)@, final(self)@),
            final(self)@.position == old(self)@.position,
            final(self)@.usable == r is Ok,
            transaction_outcome(old(self)@, final(self)@, direction, command@, length) == Some(
                outcome_view(r),
            ),
    {
        let ghost before = self@;
        // The next tag of the session.
        let tag = self.tag + 1;
        self.tag = tag;
        self.issued_tags = Ghost(self.issued_tags@.push(tag));
        let ghost command_view = command@;
        let cbw = CommandBlockWrapper {
            tag,
            data_transfer_length: length,
            direction,
            lun: 0,
            cbwcb: command,
        };
        let bytes = match cbw.encode() {
            Ok(b) => b,
            Err(_) => {
                // Logical unit zero and at most sixteen command bytes.
                proof {
                    assert(false);
                }
                return Err(StorageError::Unusable);
            },
        };
        let ghost wrapper = command_wrapper(tag, direction, length, command_view);
        assert(bytes@ == wrapper);
        let ghost ep_in = self.endpoint_in;
        let ghost ep_out = self.endpoint_out;
        let written = self.transport.write_bulk(
            self.endpoint_out,
            bytes.as_slice(),
            TRANSFER_TIMEOUT_NS,
        );
        let ghost sent = BusEvent::Sent { endpoint: self.endpoint_out, bytes: bytes@, result: written };
        self.bus = Ghost(self.bus@.push(sent));
        let ghost mut ev: Seq<BusEvent> = seq![sent];
        assert(new_events(before, self@) =~= ev);
        assert(self@.bus.subrange(0, before.bus.len() as int) =~= before.bus);
        match written {
            Err(e) => {
                self.usable = false;
                assert(exchange(ev, ep_in, ep_out, tag, direction, command_view, length) == Some(
                    Err::<(Seq<u8>, CswStatus), StorageError>(StorageError::Transport(e)),
                )) by {
                    reveal(exchange);
                }
                return Err(StorageError::Transport(e));
            },
            Ok(n) => {
                if n != bytes.len() {
                    self.usable = false;
                    assert(exchange(ev, ep_in, ep_out, tag, direction, command_view, length)
                        == Some(Err::<(Seq<u8>, CswStatus), StorageError>(StorageError::ShortWrite)))
                        by {
                        reveal(exchange);
                    }
                    return Err(StorageError::ShortWrite);
                }
            },
        }
        let has_data = match direction {
            CbwDirection::In => length > 0,
            CbwDirection::Out => false,
        };
        assert(has_data == (direction == CbwDirection::In && length > 0));
        let data = if has_data {
            let got = self.transport.read_bulk(self.endpoint_in, length as usize, TRANSFER_TIMEOUT_NS);
            let ghost received = BusEvent::Received {
                endpoint: self.endpoint_in,
                requested: length as nat,
                answer: received_view(got),
            };
            self.bus = Ghost(self.bus@.push(received));
            proof {
                ev = seq![sent, received];
            }
            assert(new_events(before, self@) =~= ev);
            assert(self@.bus.subrange(0, before.bus.len() as int) =~= before.bus);
            assert(ev.drop_first() =~= seq![received]);
            match got {
                Err(e) => {
                    self.usable = false;
                    assert(exchange(ev, ep_in, ep_out, tag, direction, command_view, length)
                        == Some(
                        Err::<(Seq<u8>, CswStatus), StorageError>(StorageError::Transport(e)),
                    )) by {
                        reveal(exchange);
                        reveal(data_phase);
                    }
                    return Err(StorageError::Transport(e));
                },
                Ok(d) => {
                    if d.len() > length as usize {
                        self.usable = false;
                        assert(exchange(ev, ep_in, ep_out, tag, direction, command_view, length)
                            == Some(
                            Err::<(Seq<u8>, CswStatus), StorageError>(
                                StorageError::Protocol(ProtocolError::Overrun),
                            ),
                        )) by {
                            reveal(exchange);
                            reveal(data_phase);
                        }
                        return Err(StorageError::Protocol(ProtocolError::Overrun));
                    }
                    d
                },
            }
        } else {
            Vec::new()
        };
        let status = self.transport.read_bulk(self.endpoint_in, CSW_LEN, TRANSFER_TIMEOUT_NS);
        let ghost answer = BusEvent::Received {
            endpoint: self.endpoint_in,
            requested: 13,
            answer: received_view(status),
        };
        self.bus = Ghost(self.bus@.push(answer));
        let ghost prior = ev;
        proof {
            ev = ev.push(answer);
        }
        assert(new_events(before, self@) =~= ev);
        assert(self@.bus.subrange(0, before.bus.len() as int) =~= before.bus);
        // What the calls so far lead to: the status phase on the last call.
        assert(exchange(ev, ep_in, ep_out, tag, direction, command_view, length) == status_phase(
            seq![answer],
            ep_in,
            tag,
            data@,
        )) by {
            reveal(exchange);
            reveal(data_phase);
            if has_data {
                assert(ev.drop_first() =~= seq![prior[1], answer]);
                assert(ev.drop_first().drop_first() =~= seq![answer]);
            } else {
                assert(ev.drop_first() =~= seq![answer]);
                assert(data@ =~= Seq::<u8>::empty());
            }
        }
        let status_bytes = match status {
            Err(e) => {
                self.usable = false;
                assert(status_phase(seq![answer], ep_in, tag, data@) == Some(
                    Err::<(Seq<u8>, CswStatus), StorageError>(StorageError::Transport(e)),
                )) by {
                    reveal(status_phase);
                }
                return Err(StorageError::Transport(e));
            },
            Ok(s) => s,
        };
        let verdict = check_status(status_bytes.as_slice(), tag);
        assert(status_phase(seq![answer], ep_in, tag, data@) == Some(
            match verdict {
                Err(e) => Err::<(Seq<u8>, CswStatus), StorageError>(e),
                Ok(st) => Ok((data@, st)),
            },
        )) by {
            reveal(status_phase);
        }
        match verdict {
            Err(e) => {
                self.usable = false;
                Err(e)
            },
            Ok(status) => Ok((data, status)),
        }
    }

    /// Sends the Bulk-Only Mass Storage Reset to the interface, once. The
    /// device is usable afterwards if and only if the request went through.
    pub fn reset(&mut self) -> (r: Result<(), StorageError>)
        requires
            old(self).wf(),
        ensures
            final(self).wf(),
            final(self)@.same_setup(old(self)@),
            final(self)@.position == old(self)@.position,
            final(self)@.tag == old(self)@.tag,
            final(self)@.issued_tags == old(self)@.issued_tags,
            final(self)@.usable == r is Ok,
            final(self)@.bus.len() == old(self)@.bus.len() + 1,
            final(self)@.bus.drop_last() == old(self)@.bus,
            reset_outcome(final(self)@.bus.last(), old(self)@.interface_number) == Some(r),
    {
        let empty: Vec<u8> = Vec::new();
        let result = self.transport.write_control(
            RESET_REQUEST_TYPE,
            BULK_ONLY_RESET,
            0,
            self.interface_number as u16,
            empty.as_slice(),
            TRANSFER_TIMEOUT_NS,
        );
        self.bus = Ghost(
            self.bus@.push(
                BusEvent::Control {
                    request_type: RESET_REQUEST_TYPE,
                    request: BULK_ONLY_RESET,
                    value: 0,
                    index: self.interface_number as u16,
                    result,
                },
            ),
        );
        assert(self@.bus.drop_last() =~= old(self)@.bus);
        match result {
            Ok(_) => {
                self.usable = true;
                Ok(())
            },
            Err(e) => {
                self.usable = false;
                Err(StorageError::Transport(e))
            },
        }
    }

    /// TEST UNIT READY: true exactly when the device reports the command
    /// passed.
    pub fn test_unit_ready(&mut self) -> (r: Result<bool, StorageError>)
        requires
            old(self).wf(),
        ensures
            final(self).wf(),
            final(self)@.position == old(self)@.position,
            !old(self)@.usable ==> r == Err::<bool, StorageError>(StorageError::Unusable)
                && final(self)@ == old(self)@,
            old(self)@.usable && old(self)@.tag == u32::MAX ==> r == Err::<bool, StorageError>(
                StorageError::TagsExhausted,
            ) && final(self)@ == old(self)@,
            old(self)@.usable && old(self)@.tag < u32::MAX ==> {
                &&& ran_transaction(old(self)@, final(self)@)
                &&& final(self)@.usable == r is Ok
                &&& match transaction_outcome(
                    old(self)@,
                    final(self)@,
                    CbwDirection::Out,
                    test_unit_ready_block(),
                    0,
                ) {
                    Some(o) => r == ready_outcome(o),
                    None => false,
                }
            },
    {
        if !self.usable {
            return Err(StorageError::Unusable);
        }
        if self.tag == u32::MAX {
            return Err(StorageError::TagsExhausted);
        }
        match self.transact(CbwDirection::Out, test_unit_ready_command(), 0) {
            Err(e) => Err(e),
            Ok((_, status)) => Ok(status == CswStatus::Passed),
        }
    }

    /// READ CAPACITY(10): the last block address and the block length of the
    /// medium.
    pub fn read_capacity(&mut self) -> (r: Result<DeviceCapacity, StorageError>)
        requires
            old(self).wf(),
        ensures
            final(self).wf(),
            final(self)@.position == old(self)@.position,
            !old(self)@.usable ==> r == Err::<DeviceCapacity, StorageError>(
                StorageError::Unusable,
            ) && final(self)@ == old(self)@,
            old(self)@.usable && old(self)@.tag == u32::MAX ==> r == Err::<
                DeviceCapacity,
                StorageError,
            >(StorageError::TagsExhausted) && final(self)@ == old(self)@,
            old(self)@.usable && old(self)@.tag < u32::MAX ==> {
                &&& ran_transaction(old(self)@, final(self)@)
                &&& final(self)@.usable == r is Ok
                &&& match transaction_outcome(
                    old(self)@,
                    final(self)@,
                    CbwDirection::In,
                    read_capacity_block(),
                    8,
                ) {
                    Some(o) => r == capacity_outcome(o),
                    None => false,
                }
            },
            r matches Ok(c) ==> c.wf(),
    {
        if !self.usable {
            return Err(StorageError::Unusable);
        }
        if self.tag == u32::MAX {
            return Err(StorageError::TagsExhausted);
        }
        match self.transact(CbwDirection::In, read_capacity_command(), 8) {
            Err(e) => Err(e),
            Ok((data, status)) => {
                if status != CswStatus::Passed {
                    self.usable = false;
                    return Err(StorageError::Protocol(ProtocolError::NotPassed(status)));
                }
                match DeviceCapacity::from_response(data.as_slice()) {
                    None => {
                        self.usable = false;
                        Err(StorageError::Protocol(ProtocolError::ShortData))
                    },
                    Some(c) => {
                        assert(c == capacity_of(data@));
                        Ok(c)
                    },
                }
            },
        }
    }

    /// READ(10) of `transfer_length` blocks from `block_address`: the data
    /// the device returned, at most `transfer_length` blocks of it. Fails
    /// unless the status phase reports the command passed.
    pub fn read_10(&mut self, block_address: u32, transfer_length: u16) -> (r: Result<
        Vec<u8>,
        StorageError,
    >)
        requires
            old(self).wf(),
        ensures
            final(self).wf(),
            final(self)@.position == old(self)@.position,
            !old(self)@.usable ==> r == Err::<Vec<u8>, StorageError>(StorageError::Unusable)
                && final(self)@ == old(self)@,
            old(self)@.usable && transfer_length * old(self)@.capacity.block_length > u32::MAX
                ==> r == Err::<Vec<u8>, StorageError>(StorageError::TransferTooLarge) && final(self)@ == old(self)@,
            old(self)@.usable && transfer_length * old(self)@.capacity.block_length <= u32::MAX
                && old(self)@.tag == u32::MAX ==> r == Err::<Vec<u8>, StorageError>(
                StorageError::TagsExhausted,
            ) && final(self)@ == old(self)@,
            old(self)@.usable && transfer_length * old(self)@.capacity.block_length <= u32::MAX
                && old(self)@.tag < u32::MAX ==> {
                &&& ran_transaction(old(self)@, final(self)@)
                &&& final(self)@.usable == r is Ok
                &&& match transaction_outcome(
                    old(self)@,
                    final(self)@,
                    CbwDirection::In,
                    read_10_block(block_address, transfer_length),
                    (transfer_length * old(self)@.capacity.block_length) as u32,
                ) {
                    Some(o) => match r {
                        Ok(v) => passed_data(o) == Ok::<Seq<u8>, StorageError>(v@),
                        Err(e) => passed_data(o) == Err::<Seq<u8>, StorageError>(e),
                    },
                    None => false,
                }
            },
    {
        if !self.usable {
            return Err(StorageError::Unusable);
        }
        let block_length = self.capacity.block_length;
        assert(transfer_length * block_length <= 0xffffu64 * 0xffff_ffffu64) by (nonlinear_arith)
            requires
                transfer_length <= 0xffffu16,
                block_length <= 0xffff_ffffu32,
        ;
        let bytes: u64 = transfer_length as u64 * block_length as u64;
        if bytes > u32::MAX as u64 {
            return Err(StorageError::TransferTooLarge);
        }
        if self.tag == u32::MAX {
            return Err(StorageError::TagsExhausted);
        }
        match self.transact(
            CbwDirection::In,
            read_10_command(block_address, transfer_length),
            bytes as u32,
        ) {
            Err(e) => Err(e),
            Ok((data, status)) => {
                if status != CswStatus::Passed {
                    self.usable = false;
                    return Err(StorageError::Protocol(ProtocolError::NotPassed(status)));
                }
                Ok(data)
            },
        }
    }

    /// Sets up a session on a claimed interface: a reset, TEST UNIT READY,
    /// which must pass, and READ CAPACITY(10), whose answer the device keeps.
    pub fn new(transport: T, interface_number: u8, endpoint_in: u8, endpoint_out: u8) -> (r:
        Result<Self, StorageError>)
        ensures
            r matches Ok(d) ==> {
                &&& d.wf()
                &&& d@.usable
                &&& d@.position == 0
                &&& d@.interface_number == interface_number
                &&& d@.endpoint_in == endpoint_in
                &&& d@.endpoint_out == endpoint_out
                &&& d@.tag == 2
                &&& d@.bus.len() == 6
                &&& reset_outcome(d@.bus[0], interface_number) == Some(Ok::<(), StorageError>(()))
                &&& (exchange(
                    d@.bus.subrange(1, 3),
                    endpoint_in,
                    endpoint_out,
                    1,
                    CbwDirection::Out,
                    test_unit_ready_block(),
                    0,
                ) matches Some(o) && ready_outcome(o) == Ok::<bool, StorageError>(true))
                &&& (exchange(
                    d@.bus.subrange(3, 6),
                    endpoint_in,
                    endpoint_out,
                    2,
                    CbwDirection::In,
                    read_capacity_block(),
                    8,
                ) matches Some(o) && capacity_outcome(o) == Ok::<DeviceCapacity, StorageError>(
                    d@.capacity,
                ))
            },
            r matches Err(e) ==> e is Transport || e is ShortWrite || e is Protocol || e is NotReady,
    {
        let mut d = MassStorageDevice {
            capacity: DeviceCapacity::new(0, 0),
            transport,
            interface_number,
            endpoint_in,
            endpoint_out,
            seek_position: 0,
            tag: 0,
            usable: false,
            issued_tags: Ghost(Seq::empty()),
            bus: Ghost(Seq::empty()),
        };
        match d.reset() {
            Err(e) => return Err(e),
            Ok(()) => {},
        }
        let ghost s1 = d@;
        let ready = d.test_unit_ready();
        let ghost s2 = d@;
        proof {
            lemma_exchange_shape(
                new_events(s1, s2),
                endpoint_in,
                endpoint_out,
                1,
                CbwDirection::Out,
                test_unit_ready_block(),
                0,
            );
        }
        match ready {
            Err(e) => return Err(e),
            Ok(ready) => if !ready {
                return Err(StorageError::NotReady);
            },
        }
        let capacity = d.read_capacity();
        let ghost ev = new_events(s2, d@);
        proof {
            lemma_exchange_shape(
                ev,
                endpoint_in,
                endpoint_out,
                2,
                CbwDirection::In,
                read_capacity_block(),
                8,
            );
        }
        match capacity {
            Err(e) => Err(e),
            Ok(c) => {
                d.capacity = c;
                proof {
                    assert(ev.len() == 3);
                    assert(d@.bus.subrange(3, 6) =~= ev);
                    assert(d@.bus.subrange(0, 3) == s2.bus);
                    assert(d@.bus[0] == s2.bus[0]);
                    assert(s2.bus[0] == s1.bus[0]);
                    assert(d@.bus.subrange(1, 3) =~= new_events(s1, s2));
                }
                Ok(d)
            },
        }
    }

    /// Moves the stream position: from the start, from the end of the medium,
    /// or from the current position; never below zero nor past `u64::MAX`.
    pub fn seek(&mut self, pos: SeekFrom) -> (r: u64)
        requires
            old(self).wf(),
        ensures
            final(self).wf(),
            r == seek_target(old(self)@.position, old(self)@.capacity.size, pos),
            final(self)@ == (DeviceState { position: r, ..old(self)@ }),
    {
        self.seek_position = match pos {
            SeekFrom::Start(p) => p,
            SeekFrom::End(d) => saturating_add_signed(self.capacity.size, d),
            SeekFrom::Current(d) => saturating_add_signed(self.seek_position, d),
        };
        self.seek_position
    }

    /// The size of the medium, read when the session was set up.
    pub fn capacity(&self) -> (r: DeviceCapacity)
        ensures
            r == self@.capacity,
    {
        self.capacity
    }

    /// The stream position.
    pub fn position(&self) -> (r: u64)
        ensures
            r == self@.position,
    {
        self.seek_position
    }

    /// Reads `buf.len()` bytes from the stream position with one READ(10)
    /// over the blocks that hold them, and moves the position past them. A
    /// read that would end past the medium fails before any transfer.
    pub fn read(&mut self, buf: &mut [u8]) -> (r: Result<usize, StorageError>)
        requires
            old(self).wf(),
        ensures
            final(self).wf(),
            final(buf)@.len() == old(buf)@.len(),
            stream_read(
                old(self)@,
                final(self)@,
                old(buf)@.len() as int,
                match r {
                    Ok(_) => Ok(final(buf)@),
                    Err(e) => Err(e),
                },
            ),
            r matches Ok(n) ==> n == old(buf)@.len(),
            r is Err ==> final(buf)@ == old(buf)@,
    {
        let len = buf.len();
        if len == 0 {
            assert(buf@ =~= Seq::<u8>::empty());
            return Ok(0);
        }
        let size = self.capacity.size;
        let pos = self.seek_position;
        if len as u64 > size || pos > size - len as u64 {
            return Err(StorageError::OutOfRange);
        }
        if !self.usable {
            return Err(StorageError::Unusable);
        }
        let lba = self.capacity.logical_block_address;
        let block_length = self.capacity.block_length as u64;
        assert(block_length > 0) by (nonlinear_arith)
            requires
                size == (lba + 1) * block_length,
                pos + len <= size,
                len > 0,
        ;
        assert(pos / block_length <= lba) by (nonlinear_arith)
            requires
                pos < (lba + 1) * block_length,
                block_length > 0,
        ;
        let end: u64 = pos + len as u64;
        let first: u64 = pos / block_length;
        proof {
            vstd::arithmetic::div_mod::lemma_div_is_ordered(
                pos as int,
                end + block_length - 1,
                block_length as int,
            );
        }
        let count: u128 = (end as u128 + block_length as u128 - 1) / block_length as u128
            - first as u128;
        if count > MAX_TRANSFER_BLOCKS as u128 {
            return Err(StorageError::TransferTooLarge);
        }
        let data = match self.read_10(first as u32, count as u16) {
            Err(e) => return Err(e),
            Ok(data) => data,
        };
        let start = (pos % block_length) as usize;
        let bytes = match cut_blocks(data.as_slice(), start, len) {
            None => {
                self.usable = false;
                return Err(StorageError::Protocol(ProtocolError::ShortData));
            },
            Some(bytes) => bytes,
        };
        let mut i: usize = 0;
        while i < len
            invariant
                i <= len,
                len == buf@.len(),
                len == bytes@.len(),
                forall|k: int| 0 <= k < i ==> buf@[k] == bytes@[k],
            decreases len - i,
        {
            buf[i] = bytes[i];
            i = i + 1;
        }
        assert(buf@ =~= bytes@);
        self.seek_position = end;
        Ok(len)
    }
}

/// The `len` bytes from `start` of the blocks a READ(10) returned, if it
/// returned that many.
pub fn cut_blocks(data: &[u8], start: usize, len: usize) -> (r: Option<Vec<u8>>)
    ensures
        r is Some <==> start + len <= data@.len(),
        r matches Some(v) ==> v@ == data@.subrange(start as int, start + len),
{
    if start > data.len() || data.len() - start < len {
        return None;
    }
    let available = data.len();
    let mut out: Vec<u8> = Vec::new();
    let mut i: usize = 0;
    while i < len
        invariant
            i <= len,
            available == data@.len(),
            start + len <= available,
            out@ == data@.subrange(start as int, start + i),
        decreases len - i,
    {
        out.push(data[start + i]);
        i = i + 1;
        assert(out@ =~= data@.subrange(start as int, start + i));
    }
    Some(out)
}

} // verus!
