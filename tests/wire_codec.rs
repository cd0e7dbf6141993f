use usb_storage::driver::{check_status, ProtocolError, StorageError};
use usb_storage::scsi::{read_10_command, read_capacity_command, test_unit_ready_command};
use usb_storage::wire::{
    CbwDirection, CommandBlockWrapper, CommandStatusWrapper, CswStatus, WireError,
};

fn csw_bytes(signature: u32, tag: u32, residue: u32, status: u8) -> Vec<u8> {
    let mut v = Vec::new();
    v.extend_from_slice(&signature.to_le_bytes());
    v.extend_from_slice(&tag.to_le_bytes());
    v.extend_from_slice(&residue.to_le_bytes());
    v.push(status);
    v
}

#[test]
fn cbw_round_trip() {
    for (tag, len, dir, lun, cb) in [
        (1u32, 0u32, CbwDirection::Out, 0u8, vec![0u8; 6]),
        (0xdead_beef, 512, CbwDirection::In, 15, vec![0x28, 1, 2, 3, 4, 5, 6, 7, 8, 9]),
        (u32::MAX, u32::MAX, CbwDirection::In, 3, vec![0xffu8; 16]),
        (42, 8, CbwDirection::Out, 0, vec![]),
    ] {
        let cbw = CommandBlockWrapper { tag, data_transfer_length: len, direction: dir, lun, cbwcb: cb.clone() };
        let bytes = cbw.encode().unwrap();
        assert_eq!(bytes.len(), 31);
        let back = CommandBlockWrapper::decode(&bytes).unwrap();
        assert_eq!(back.tag, tag);
        assert_eq!(back.data_transfer_length, len);
        assert_eq!(back.direction, dir);
        assert_eq!(back.lun, lun);
        assert_eq!(back.cbwcb, cb);
    }
}

#[test]
fn cbw_encode_rejects_reserved_bits() {
    let cbw = CommandBlockWrapper { tag: 1, data_transfer_length: 0, direction: CbwDirection::Out, lun: 0x10, cbwcb: vec![0; 6] };
    assert_eq!(cbw.encode(), Err(WireError::ReservedLunBits));
    let cbw = CommandBlockWrapper { tag: 1, data_transfer_length: 0, direction: CbwDirection::Out, lun: 0, cbwcb: vec![0; 17] };
    assert_eq!(cbw.encode(), Err(WireError::CommandBlockTooLong));
}

#[test]
fn cbw_decode_rejects_bad_input() {
    let good = CommandBlockWrapper { tag: 9, data_transfer_length: 0, direction: CbwDirection::Out, lun: 0, cbwcb: vec![0; 6] }
        .encode()
        .unwrap();
    assert_eq!(CommandBlockWrapper::decode(&good[..30]).err(), Some(WireError::WrongLength));
    let mut bad = good.clone();
    bad[3] = 0x44;
    assert_eq!(CommandBlockWrapper::decode(&bad).err(), Some(WireError::BadSignature));
    let mut bad = good.clone();
    bad[12] = 0x40;
    assert_eq!(CommandBlockWrapper::decode(&bad).err(), Some(WireError::UnknownDirection));
    let mut bad = good.clone();
    bad[13] = 0x20;
    assert_eq!(CommandBlockWrapper::decode(&bad).err(), Some(WireError::ReservedLunBits));
    let mut bad = good;
    bad[14] = 17;
    assert_eq!(CommandBlockWrapper::decode(&bad).err(), Some(WireError::CommandBlockTooLong));
}

#[test]
fn csw_decodes_fields() {
    let csw = CommandStatusWrapper::decode(&csw_bytes(0x53425355, 0x01020304, 77, 0)).unwrap();
    assert_eq!(csw, CommandStatusWrapper { tag: 0x01020304, data_residue: 77, status: CswStatus::Passed });
    let csw = CommandStatusWrapper::decode(&csw_bytes(0x53425355, 5, 0, 1)).unwrap();
    assert_eq!(csw.status, CswStatus::Failed);
    let csw = CommandStatusWrapper::decode(&csw_bytes(0x53425355, 5, 0, 2)).unwrap();
    assert_eq!(csw.status, CswStatus::Error);
}

#[test]
fn csw_rejects_wrong_signature() {
    for signature in [0u32, 0x43425355, 0x53425354, 0xd3425355, u32::MAX] {
        assert_eq!(CommandStatusWrapper::decode(&csw_bytes(signature, 1, 0, 0)), Err(WireError::BadSignature));
    }
}

#[test]
fn csw_rejects_unknown_status_and_length() {
    assert_eq!(CommandStatusWrapper::decode(&csw_bytes(0x53425355, 1, 0, 3)), Err(WireError::UnknownStatus));
    let short = &csw_bytes(0x53425355, 1, 0, 0)[..12];
    assert_eq!(CommandStatusWrapper::decode(short), Err(WireError::WrongLength));
}

#[test]
fn status_check_matches_tag() {
    assert_eq!(check_status(&csw_bytes(0x53425355, 4, 0, 1), 4), Ok(CswStatus::Failed));
    assert_eq!(
        check_status(&csw_bytes(0x53425355, 5, 0, 0), 4),
        Err(StorageError::Protocol(ProtocolError::TagMismatch))
    );
    assert_eq!(
        check_status(&csw_bytes(1, 4, 0, 0), 4),
        Err(StorageError::Protocol(ProtocolError::Malformed(WireError::BadSignature)))
    );
}

#[test]
fn scsi_command_blocks() {
    assert_eq!(test_unit_ready_command(), vec![0u8; 6]);
    assert_eq!(read_capacity_command(), vec![0x25, 0, 0, 0, 0, 0, 0, 0, 0, 0]);
    assert_eq!(read_10_command(0x01020304, 0x0506), vec![0x28, 0, 1, 2, 3, 4, 0, 5, 6, 0]);
}
