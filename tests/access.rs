use usb_storage::access::{AllowedUSBDevices, IdentifierError, USBDeviceIdentifier};

fn id(vendor_id: u16, product_id: u16) -> USBDeviceIdentifier {
    USBDeviceIdentifier { vendor_id, product_id }
}

#[test]
fn identifiers_parse_as_hex() {
    assert_eq!(USBDeviceIdentifier::parse("12AB:34cd"), Ok(id(0x12ab, 0x34cd)));
    assert_eq!(USBDeviceIdentifier::parse("18d1:9400"), Ok(id(0x18d1, 0x9400)));
    assert_eq!(USBDeviceIdentifier::parse("0:ffff"), Ok(id(0, 0xffff)));
    assert_eq!(USBDeviceIdentifier::parse("+1:00002"), Ok(id(1, 2)));
    assert_eq!("2341:0043".parse::<USBDeviceIdentifier>(), Ok(id(0x2341, 0x0043)));
}

#[test]
fn malformed_identifiers_are_rejected() {
    assert_eq!(USBDeviceIdentifier::parse("12AB"), Err(IdentifierError::InvalidFormat));
    assert_eq!(USBDeviceIdentifier::parse("1:2:3"), Err(IdentifierError::InvalidFormat));
    assert_eq!(USBDeviceIdentifier::parse(""), Err(IdentifierError::InvalidFormat));
    assert_eq!(USBDeviceIdentifier::parse(":12"), Err(IdentifierError::InvalidVendorId));
    assert_eq!(USBDeviceIdentifier::parse("1g:12"), Err(IdentifierError::InvalidVendorId));
    assert_eq!(USBDeviceIdentifier::parse("10000:1"), Err(IdentifierError::InvalidVendorId));
    assert_eq!(USBDeviceIdentifier::parse("-1:1"), Err(IdentifierError::InvalidVendorId));
    assert_eq!(USBDeviceIdentifier::parse("+:1"), Err(IdentifierError::InvalidVendorId));
    assert_eq!(USBDeviceIdentifier::parse("1:"), Err(IdentifierError::InvalidProductId));
    assert_eq!(USBDeviceIdentifier::parse("1:é"), Err(IdentifierError::InvalidProductId));
    assert_eq!(USBDeviceIdentifier::parse("1: 2"), Err(IdentifierError::InvalidProductId));
}

#[test]
fn hex_parsing_agrees_with_std() {
    for text in ["0", "ffff", "FFFF", "10000", "+7", "+", "-1", "", "00000001", "1x", "aBc"] {
        let ours = USBDeviceIdentifier::parse(&format!("{}:1", text)).map(|d| d.vendor_id).ok();
        assert_eq!(ours, u16::from_str_radix(text, 16).ok(), "{}", text);
    }
}

#[test]
fn allow_and_deny_lists() {
    let allowed = AllowedUSBDevices::Allowed(vec![id(1, 2), id(3, 4)]);
    assert!(allowed.is_allowed(&id(3, 4)));
    assert!(!allowed.is_allowed(&id(3, 5)));
    let denied = AllowedUSBDevices::Denied(vec![id(1, 2)]);
    assert!(!denied.is_allowed(&id(1, 2)));
    assert!(denied.is_allowed(&id(2, 1)));
    assert!(!AllowedUSBDevices::Allowed(vec![]).is_allowed(&id(0, 0)));
    assert!(AllowedUSBDevices::Denied(vec![]).is_allowed(&id(0, 0)));
}
