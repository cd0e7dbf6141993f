use std::cell::RefCell;
use std::collections::VecDeque;
use std::rc::Rc;

use usb_storage::driver::{
    cut_blocks, BulkTransport, MassStorageDevice, ProtocolError, SeekFrom, StorageError, TransportError,
};
use usb_storage::scsi::DeviceCapacity;
use usb_storage::window::RangeRestrictedStream;
use usb_storage::wire::{CbwDirection, CommandBlockWrapper, CswStatus, CSW_SIGNATURE};

const EP_IN: u8 = 0x81;
const EP_OUT: u8 = 0x02;

/// The byte a simulated medium holds at `offset`.
fn medium_byte(offset: u64) -> u8 {
    ((offset * 7 + offset / 251) % 256) as u8
}

fn csw(tag: u32, status: u8) -> Vec<u8> {
    let mut v = Vec::new();
    v.extend_from_slice(&CSW_SIGNATURE.to_le_bytes());
    v.extend_from_slice(&tag.to_le_bytes());
    v.extend_from_slice(&0u32.to_le_bytes());
    v.push(status);
    v
}

/// What the simulated device saw and how it misbehaves.
#[derive(Default)]
struct Record {
    tags: Vec<u32>,
    commands: Vec<Vec<u8>>,
    controls: Vec<(u8, u8, u16, u16)>,
    fail_read_status: Option<u8>,
    wrong_tag: bool,
    extra_data: bool,
    short_data: bool,
    fail_writes: bool,
}

/// A Bulk-Only Transport device backed by a computed medium.
struct FakeDisk {
    last_lba: u32,
    block_length: u32,
    queue: VecDeque<Vec<u8>>,
    record: Rc<RefCell<Record>>,
}

impl FakeDisk {
    fn new(last_lba: u32, block_length: u32) -> (FakeDisk, Rc<RefCell<Record>>) {
        let record = Rc::new(RefCell::new(Record::default()));
        (FakeDisk { last_lba, block_length, queue: VecDeque::new(), record: record.clone() }, record)
    }
}

impl BulkTransport for FakeDisk {
    fn write_bulk(&mut self, endpoint: u8, data: &[u8], _timeout_ns: u64) -> Result<usize, TransportError> {
        assert_eq!(endpoint, EP_OUT);
        let mut rec = self.record.borrow_mut();
        if rec.fail_writes {
            return Err(TransportError::Timeout);
        }
        let cbw = CommandBlockWrapper::decode(data).expect("a valid command wrapper");
        rec.tags.push(cbw.tag);
        rec.commands.push(cbw.cbwcb.clone());
        let reply_tag = if rec.wrong_tag { cbw.tag.wrapping_add(5) } else { cbw.tag };
        let mut status = 0u8;
        match cbw.cbwcb[0] {
            0x25 => {
                let mut d = Vec::new();
                d.extend_from_slice(&self.last_lba.to_be_bytes());
                d.extend_from_slice(&self.block_length.to_be_bytes());
                self.queue.push_back(d);
            }
            0x28 => {
                let lba = u32::from_be_bytes([cbw.cbwcb[2], cbw.cbwcb[3], cbw.cbwcb[4], cbw.cbwcb[5]]) as u64;
                let count = u16::from_be_bytes([cbw.cbwcb[7], cbw.cbwcb[8]]) as u64;
                let start = lba * self.block_length as u64;
                let mut len = count * self.block_length as u64;
                if rec.extra_data {
                    len += 1;
                }
                if rec.short_data {
                    len -= 1;
                }
                self.queue.push_back((start..start + len).map(medium_byte).collect());
                if let Some(s) = rec.fail_read_status {
                    status = s;
                }
            }
            _ => {}
        }
        self.queue.push_back(csw(reply_tag, status));
        Ok(data.len())
    }

    fn read_bulk(&mut self, endpoint: u8, _max_len: usize, _timeout_ns: u64) -> Result<Vec<u8>, TransportError> {
        assert_eq!(endpoint, EP_IN);
        self.queue.pop_front().ok_or(TransportError::Stall)
    }

    fn write_control(
        &mut self,
        request_type: u8,
        request: u8,
        value: u16,
        index: u16,
        _data: &[u8],
        _timeout_ns: u64,
    ) -> Result<usize, TransportError> {
        self.record.borrow_mut().controls.push((request_type, request, value, index));
        Ok(0)
    }
}

fn open(last_lba: u32, block_length: u32) -> (MassStorageDevice<FakeDisk>, Rc<RefCell<Record>>) {
    let (disk, record) = FakeDisk::new(last_lba, block_length);
    let device = MassStorageDevice::new(disk, 0, EP_IN, EP_OUT).expect("device opens");
    (device, record)
}

fn expected(offset: u64, len: u64) -> Vec<u8> {
    (offset..offset + len).map(medium_byte).collect()
}

#[test]
fn end_to_end_session() {
    let (mut device, record) = open(204799, 512);
    assert_eq!(device.test_unit_ready(), Ok(true));
    let capacity = device.read_capacity().unwrap();
    assert_eq!(capacity.logical_block_address, 204799);
    assert_eq!(capacity.block_length, 512);
    let block = device.read_10(0, 1).unwrap();
    assert_eq!(block.len(), 512);
    assert_eq!(block, expected(0, 512));
    assert_eq!(record.borrow().controls, vec![(0x21, 0xff, 0, 0)]);
}

#[test]
fn capacity_counts_the_last_block() {
    let (mut device, _record) = open(204799, 512);
    let capacity = device.capacity();
    // READ CAPACITY reports the last block's address: 204800 blocks.
    assert_eq!(capacity.size, 204800 * 512);
    // Read as a block count, the same answer would leave out the last block.
    assert_eq!(capacity.logical_block_address as u64 * capacity.block_length as u64, capacity.size - 512);
    assert_eq!(device.seek(SeekFrom::Start(204799 * 512)), 204799 * 512);
    let mut buf = vec![0u8; 512];
    assert_eq!(device.read(&mut buf), Ok(512));
    assert_eq!(buf, expected(204799 * 512, 512));
    let mut more = vec![0u8; 1];
    assert_eq!(device.read(&mut more), Err(StorageError::OutOfRange));
}

#[test]
fn capacity_from_response_and_new() {
    let c = DeviceCapacity::from_response(&[0, 3, 31, 255, 0, 0, 2, 0]).unwrap();
    assert_eq!(c.logical_block_address, 204799);
    assert_eq!(c.block_length, 512);
    assert_eq!(c.size, 104857600);
    assert_eq!(DeviceCapacity::from_response(&[0, 0, 0]), None);
    assert_eq!(DeviceCapacity::new(0, 0).size, 0);
}

#[test]
fn block_math_trims_partial_blocks() {
    let (mut device, record) = open(99, 512);
    assert_eq!(device.seek(SeekFrom::Start(500)), 500);
    let mut buf = vec![0u8; 1000];
    assert_eq!(device.read(&mut buf), Ok(1000));
    let last = record.borrow().commands.last().unwrap().clone();
    // READ(10) from block 0 over 3 blocks (1536 bytes).
    assert_eq!(last, vec![0x28, 0, 0, 0, 0, 0, 0, 0, 3, 0]);
    assert_eq!(buf, expected(500, 1000));
    assert_eq!(device.position(), 1500);
}

#[test]
fn read_at_block_boundary_asks_for_one_block() {
    let (mut device, record) = open(99, 512);
    device.seek(SeekFrom::Start(1024));
    let mut buf = vec![0u8; 512];
    assert_eq!(device.read(&mut buf), Ok(512));
    let last = record.borrow().commands.last().unwrap().clone();
    assert_eq!(last, vec![0x28, 0, 0, 0, 0, 2, 0, 0, 1, 0]);
    assert_eq!(buf, expected(1024, 512));
}

#[test]
fn empty_read_does_nothing() {
    let (mut device, record) = open(99, 512);
    let before = record.borrow().commands.len();
    let mut buf: Vec<u8> = Vec::new();
    assert_eq!(device.read(&mut buf), Ok(0));
    assert_eq!(record.borrow().commands.len(), before);
}

#[test]
fn read_past_end_fails_before_any_transfer() {
    let (mut device, record) = open(1, 500);
    let before = record.borrow().commands.len();
    device.seek(SeekFrom::Start(900));
    let mut buf = vec![7u8; 200];
    assert_eq!(device.read(&mut buf), Err(StorageError::OutOfRange));
    assert_eq!(record.borrow().commands.len(), before);
    assert_eq!(buf, vec![7u8; 200]);
    assert_eq!(device.position(), 900);
}

#[test]
fn seek_from_end_and_current() {
    let (mut device, _record) = open(1, 500);
    assert_eq!(device.capacity().size, 1000);
    assert_eq!(device.seek(SeekFrom::End(-100)), 900);
    assert_eq!(device.seek(SeekFrom::Current(50)), 950);
    assert_eq!(device.seek(SeekFrom::Start(10)), 10);
    assert_eq!(device.seek(SeekFrom::Current(-2000)), 0);
    assert_eq!(device.seek(SeekFrom::Start(u64::MAX - 1)), u64::MAX - 1);
    assert_eq!(device.seek(SeekFrom::Current(10)), u64::MAX);
}

#[test]
fn tags_increase_across_transactions() {
    let (mut device, record) = open(99, 512);
    for _ in 0..5 {
        assert_eq!(device.test_unit_ready(), Ok(true));
        device.read_10(3, 2).unwrap();
    }
    let tags = record.borrow().tags.clone();
    assert_eq!(tags.len(), 12);
    for pair in tags.windows(2) {
        assert_eq!(pair[1], pair[0] + 1);
    }
    assert_eq!(tags[0], 1);
}

#[test]
fn failed_status_is_an_error() {
    let (mut device, record) = open(99, 512);
    record.borrow_mut().fail_read_status = Some(0x01);
    assert_eq!(
        device.read_10(0, 1),
        Err(StorageError::Protocol(ProtocolError::NotPassed(CswStatus::Failed)))
    );
    let mut buf = vec![0u8; 10];
    assert_eq!(device.read(&mut buf), Err(StorageError::Unusable));
    record.borrow_mut().fail_read_status = None;
    assert_eq!(device.reset(), Ok(()));
    assert_eq!(device.read(&mut buf), Ok(10));
    assert_eq!(buf, expected(0, 10));
}

#[test]
fn phase_error_status_is_an_error() {
    let (mut device, record) = open(99, 512);
    record.borrow_mut().fail_read_status = Some(0x02);
    let mut buf = vec![9u8; 10];
    assert_eq!(
        device.read(&mut buf),
        Err(StorageError::Protocol(ProtocolError::NotPassed(CswStatus::Error)))
    );
    assert_eq!(buf, vec![9u8; 10]);
    assert_eq!(device.position(), 0);
}

#[test]
fn unknown_status_byte_is_malformed() {
    let (mut device, record) = open(99, 512);
    record.borrow_mut().fail_read_status = Some(0x07);
    assert_eq!(
        device.read_10(0, 1),
        Err(StorageError::Protocol(ProtocolError::Malformed(usb_storage::wire::WireError::UnknownStatus)))
    );
}

#[test]
fn tag_mismatch_is_an_error() {
    let (mut device, record) = open(99, 512);
    record.borrow_mut().wrong_tag = true;
    assert_eq!(device.read_10(0, 1), Err(StorageError::Protocol(ProtocolError::TagMismatch)));
    assert_eq!(device.test_unit_ready(), Err(StorageError::Unusable));
}

#[test]
fn overrun_is_an_error() {
    let (mut device, record) = open(99, 512);
    record.borrow_mut().extra_data = true;
    assert_eq!(device.read_10(0, 1), Err(StorageError::Protocol(ProtocolError::Overrun)));
}

#[test]
fn transport_failure_is_surfaced() {
    let (mut device, record) = open(99, 512);
    record.borrow_mut().fail_writes = true;
    assert_eq!(device.read_10(0, 1), Err(StorageError::Transport(TransportError::Timeout)));
    assert_eq!(device.read_capacity(), Err(StorageError::Unusable));
}

#[test]
fn too_many_blocks_fail_before_any_transfer() {
    let (mut device, record) = open(0x0100_0000, 512);
    let before = record.borrow().commands.len();
    // 65535 blocks of 512 bytes fit one READ(10); 65536 do not.
    let mut buf = vec![0u8; 65536 * 512];
    assert_eq!(device.read(&mut buf), Err(StorageError::TransferTooLarge));
    let (mut big, big_record) = open(10, 0x0100_0000);
    let big_before = big_record.borrow().commands.len();
    assert_eq!(big.read_10(0, 256), Err(StorageError::TransferTooLarge));
    assert_eq!(record.borrow().commands.len(), before);
    assert_eq!(big_record.borrow().commands.len(), big_before);
}

#[test]
fn not_ready_device_does_not_open() {
    struct Busy;
    impl BulkTransport for Busy {
        fn write_bulk(&mut self, _e: u8, data: &[u8], _t: u64) -> Result<usize, TransportError> {
            Ok(data.len())
        }
        fn read_bulk(&mut self, _e: u8, _m: usize, _t: u64) -> Result<Vec<u8>, TransportError> {
            Ok(csw(1, 0x01))
        }
        fn write_control(&mut self, _a: u8, _b: u8, _c: u16, _d: u16, _x: &[u8], _t: u64) -> Result<usize, TransportError> {
            Ok(0)
        }
    }
    assert!(matches!(MassStorageDevice::new(Busy, 0, EP_IN, EP_OUT), Err(StorageError::NotReady)));
}

#[test]
fn window_maps_local_offsets() {
    let (device, record) = open(19, 500);
    assert_eq!(device.capacity().size, 10000);
    let mut window = RangeRestrictedStream::new(device, 2000, 5000).unwrap();
    let mut buf = vec![0u8; 100];
    assert_eq!(window.read(&mut buf), Ok(100));
    assert_eq!(buf, expected(2000, 100));
    let last = record.borrow().commands.last().unwrap().clone();
    assert_eq!(last, vec![0x28, 0, 0, 0, 0, 4, 0, 0, 1, 0]);
    assert_eq!(window.position(), 100);
}

#[test]
fn window_stops_at_its_end() {
    let (device, _record) = open(19, 500);
    let mut window = RangeRestrictedStream::new(device, 2000, 5000).unwrap();
    assert_eq!(window.seek(SeekFrom::Start(2900)), 2900);
    let mut buf = vec![0u8; 200];
    assert_eq!(window.read(&mut buf), Ok(100));
    assert_eq!(&buf[..100], &expected(4900, 100)[..]);
    assert_eq!(&buf[100..], &vec![0u8; 100][..]);
    assert_eq!(window.position(), 3000);
    assert_eq!(window.read(&mut buf), Ok(0));
    assert_eq!(window.seek(SeekFrom::End(-10)), 2990);
    assert_eq!(window.seek(SeekFrom::Current(-5000)), 0);
    let device = window.into_inner();
    assert_eq!(device.position(), 5000);
}

#[test]
fn window_must_lie_within_medium() {
    let (device, _record) = open(19, 500);
    assert!(matches!(RangeRestrictedStream::new(device, 3000, 2000), Err(StorageError::OutOfRange)));
    let (device, _record) = open(19, 500);
    assert!(matches!(RangeRestrictedStream::new(device, 0, 10001), Err(StorageError::OutOfRange)));
}

#[test]
fn command_wrapper_for_read_is_sent_exactly() {
    let cbw = CommandBlockWrapper {
        tag: 7,
        data_transfer_length: 512,
        direction: CbwDirection::In,
        lun: 0,
        cbwcb: vec![0x28, 0, 0, 0, 0, 0, 0, 0, 1, 0],
    };
    let bytes = cbw.encode().unwrap();
    assert_eq!(bytes.len(), 31);
    assert_eq!(&bytes[..15], &[0x55, 0x53, 0x42, 0x43, 7, 0, 0, 0, 0, 2, 0, 0, 0x80, 0, 10]);
    assert_eq!(&bytes[15..25], &[0x28, 0, 0, 0, 0, 0, 0, 0, 1, 0]);
    assert_eq!(&bytes[25..], &[0u8; 6]);
}

#[test]
fn short_data_is_returned_by_read_10_but_fails_a_stream_read() {
    let (mut device, record) = open(99, 512);
    record.borrow_mut().short_data = true;
    assert_eq!(device.read_10(0, 1), Ok(expected(0, 511)));
    device.seek(SeekFrom::Start(1));
    let mut buf = vec![3u8; 511];
    assert_eq!(device.read(&mut buf), Err(StorageError::Protocol(ProtocolError::ShortData)));
    assert_eq!(buf, vec![3u8; 511]);
    assert_eq!(device.position(), 1);
    assert_eq!(device.read_10(0, 1), Err(StorageError::Unusable));
}

#[test]
fn blocks_are_cut_to_the_request() {
    let data: Vec<u8> = (0..1536u32).map(|i| (i % 256) as u8).collect();
    assert_eq!(cut_blocks(&data, 500, 1000), Some(data[500..1500].to_vec()));
    assert_eq!(cut_blocks(&data, 536, 1000), Some(data[536..1536].to_vec()));
    assert_eq!(cut_blocks(&data, 537, 1000), None);
    assert_eq!(cut_blocks(&data, 2000, 0), None);
}
