//! Which devices a host lets a guest see: identifiers written as
//! `vendor_id:product_id` in hexadecimal, and allow or deny lists of them.
use vstd::prelude::*;
use vstd::string::StringSliceAdditionalSpecFns;

verus! {

/// A device's vendor and product ids.
#[derive(Clone, Copy, PartialEq, Eq, Debug, Structural)]
pub struct USBDeviceIdentifier {
    pub vendor_id: u16,
    pub product_id: u16,
}

/// Why a text is no device identifier.
#[derive(Clone, Copy, PartialEq, Eq, Debug, Structural)]
pub enum IdentifierError {
    /// Not two parts separated by one colon.
    InvalidFormat,
    InvalidVendorId,
    InvalidProductId,
}

/// The value of a hexadecimal digit, in either case.
pub open spec fn hex_digit(b: u8) -> Option<int> {
    if 0x30 <= b <= 0x39 {
        Some(b - 0x30)
    } else if 0x61 <= b <= 0x66 {
        Some(b - 0x61 + 10)
    } else if 0x41 <= b <= 0x46 {
        Some(b - 0x41 + 10)
    } else {
        None
    }
}

/// The value of a run of hexadecimal digits, most significant first; an
/// empty run is zero.
pub open spec fn hex_digits(s: Seq<u8>) -> Option<int>
    decreases s.len(),
{
    if s.len() == 0 {
        Some(0)
    } else {
        match (hex_digits(s.drop_last()), hex_digit(s.last())) {
            (Some(high), Some(low)) => Some(16 * high + low),
            _ => None,
        }
    }
}

/// A 16-bit number in hexadecimal: an optional `+`, then at least one
/// digit, with a value that fits.
pub open spec fn hex_u16(s: Seq<u8>) -> Option<u16> {
    let digits = if s.len() > 0 && s[0] == 0x2b {
        s.drop_first()
    } else {
        s
    };
    if digits.len() == 0 {
        None
    } else {
        match hex_digits(digits) {
            Some(v) => if v <= 0xffff {
                Some(v as u16)
            } else {
                None
            },
            None => None,
        }
    }
}

/// `i` is the one colon of `s`.
pub open spec fn only_colon_at(s: Seq<u8>, i: int) -> bool {
    &&& 0 <= i < s.len()
    &&& s[i] == 0x3a
    &&& forall|j: int| 0 <= j < s.len() && j != i ==> s[j] != 0x3a
}

/// What the UTF-8 bytes of a text give as a device identifier.
pub open spec fn parse_identifier(s: Seq<u8>) -> Result<USBDeviceIdentifier, IdentifierError> {
    if exists|i: int| only_colon_at(s, i) {
        let i = choose|i: int| only_colon_at(s, i);
        match (hex_u16(s.subrange(0, i)), hex_u16(s.subrange(i + 1, s.len() as int))) {
            (None, _) => Err(IdentifierError::InvalidVendorId),
            (Some(_), None) => Err(IdentifierError::InvalidProductId),
            (Some(vendor_id), Some(product_id)) => Ok(USBDeviceIdentifier { vendor_id, product_id }),
        }
    } else {
        Err(IdentifierError::InvalidFormat)
    }
}

proof fn lemma_invalid_digit_persists(s: Seq<u8>, k: int)
    requires
        0 <= k <= s.len(),
        hex_digits(s.subrange(0, k)) is None,
    ensures
        hex_digits(s) is None,
    decreases s.len(),
{
    if s.len() == k {
        assert(s.subrange(0, k) =~= s);
    } else {
        assert(s.drop_last().subrange(0, k) =~= s.subrange(0, k));
        lemma_invalid_digit_persists(s.drop_last(), k);
    }
}

fn parse_hex_u16(s: &[u8], from: usize, to: usize) -> (r: Option<u16>)
    requires
        from <= to <= s@.len(),
    ensures
        r == hex_u16(s@.subrange(from as int, to as int)),
{
    let ghost whole = s@.subrange(from as int, to as int);
    let mut start = from;
    if start < to && s[start] == 0x2b {
        start = start + 1;
    }
    let ghost digits = s@.subrange(start as int, to as int);
    assert(digits == if whole.len() > 0 && whole[0] == 0x2b {
        whole.drop_first()
    } else {
        whole
    });
    if start == to {
        return None;
    }
    let mut value: u32 = 0;
    let mut too_big = false;
    let mut i = start;
    while i < to
        invariant
            start <= i <= to <= s@.len(),
            digits == s@.subrange(start as int, to as int),
            whole == s@.subrange(from as int, to as int),
            digits.len() > 0,
            digits == if whole.len() > 0 && whole[0] == 0x2b {
                whole.drop_first()
            } else {
                whole
            },
            hex_digits(s@.subrange(start as int, i as int)) is Some,
            too_big ==> hex_digits(s@.subrange(start as int, i as int))->Some_0 > 0xffff,
            !too_big ==> hex_digits(s@.subrange(start as int, i as int)) == Some(value as int)
                && value <= 0xffff,
        decreases to - i,
    {
        let b = s[i];
        let digit: u32 = if 0x30 <= b && b <= 0x39 {
            (b - 0x30) as u32
        } else if 0x61 <= b && b <= 0x66 {
            (b - 0x61 + 10) as u32
        } else if 0x41 <= b && b <= 0x46 {
            (b - 0x41 + 10) as u32
        } else {
            assert(s@.subrange(start as int, i + 1).drop_last() =~= s@.subrange(start as int, i as int));
            assert(digits.subrange(0, i + 1 - start) =~= s@.subrange(start as int, i + 1));
            proof {
                lemma_invalid_digit_persists(digits, i + 1 - start);
            }
            return None;
        };
        assert(s@.subrange(start as int, i + 1).drop_last() =~= s@.subrange(start as int, i as int));
        if !too_big {
            value = value * 16 + digit;
            if value > 0xffff {
                too_big = true;
            }
        }
        i = i + 1;
    }
    if too_big {
        None
    } else {
        Some(value as u16)
    }
}

impl USBDeviceIdentifier {
    /// Reads `vendor_id:product_id`, both in hexadecimal.
    pub fn parse(s: &str) -> (r: Result<USBDeviceIdentifier, IdentifierError>)
        ensures
            r == parse_identifier(s.spec_bytes()),
    {
        let bytes = s.as_bytes();
        let mut colon: usize = 0;
        let mut colons: usize = 0;
        let mut i: usize = 0;
        while i < bytes.len()
            invariant
                i <= bytes@.len(),
                colons <= i,
                colons == 0 ==> forall|j: int| 0 <= j < i ==> bytes@[j] != 0x3a,
                colons == 1 ==> colon < i && bytes@[colon as int] == 0x3a && forall|j: int|
                    0 <= j < i && j != colon ==> bytes@[j] != 0x3a,
                colons >= 2 ==> forall|k: int| !only_colon_at(bytes@, k),
            decreases bytes@.len() - i,
        {
            if bytes[i] == 0x3a {
                if colons == 0 {
                    colon = i;
                    colons = 1;
                } else {
                    proof {
                        let c = colon as int;
                        assert forall|k: int| !only_colon_at(bytes@, k) by {
                            if only_colon_at(bytes@, k) {
                                if k != c {
                                    assert(bytes@[c] == 0x3a);
                                } else {
                                    assert(bytes@[i as int] == 0x3a);
                                }
                            }
                        }
                    }
                    colons = 2;
                }
            }
            i = i + 1;
        }
        if colons != 1 {
            proof {
                if colons == 0 {
                    assert forall|k: int| !only_colon_at(bytes@, k) by {
                        if only_colon_at(bytes@, k) {
                            assert(bytes@[k] == 0x3a);
                        }
                    }
                }
            }
            return Err(IdentifierError::InvalidFormat);
        }
        proof {
            assert forall|k: int| only_colon_at(bytes@, k) implies k == colon by {
                if k != colon {
                    assert(bytes@[colon as int] == 0x3a);
                }
            }
            assert(only_colon_at(bytes@, colon as int));
            let chosen = choose|k: int| only_colon_at(bytes@, k);
            assert(chosen == colon);
        }
        let vendor_id = match parse_hex_u16(bytes, 0, colon) {
            None => return Err(IdentifierError::InvalidVendorId),
            Some(v) => v,
        };
        let product_id = match parse_hex_u16(bytes, colon + 1, bytes.len()) {
            None => return Err(IdentifierError::InvalidProductId),
            Some(p) => p,
        };
        Ok(USBDeviceIdentifier { vendor_id, product_id })
    }
}

impl std::str::FromStr for USBDeviceIdentifier {
    type Err = IdentifierError;

    fn from_str(s: &str) -> Result<USBDeviceIdentifier, IdentifierError> {
        USBDeviceIdentifier::parse(s)
    }
}

/// An allow list or a deny list of devices.
pub enum AllowedUSBDevices {
    Allowed(Vec<USBDeviceIdentifier>),
    Denied(Vec<USBDeviceIdentifier>),
}

pub open spec fn listed(list: Seq<USBDeviceIdentifier>, device: USBDeviceIdentifier) -> bool {
    exists|i: int| 0 <= i < list.len() && list[i] == device
}

fn contains(list: &Vec<USBDeviceIdentifier>, device: &USBDeviceIdentifier) -> (r: bool)
    ensures
        r == listed(list@, *device),
{
    let mut i: usize = 0;
    while i < list.len()
        invariant
            i <= list@.len(),
            forall|j: int| 0 <= j < i ==> list@[j] != *device,
        decreases list@.len() - i,
    {
        if list[i].vendor_id == device.vendor_id && list[i].product_id == device.product_id {
            return true;
        }
        i = i + 1;
    }
    false
}

impl AllowedUSBDevices {
    /// On an allow list a device must be listed; on a deny list it must not.
    pub fn is_allowed(&self, device: &USBDeviceIdentifier) -> (r: bool)
        ensures
            r == match self {
                AllowedUSBDevices::Allowed(list) => listed(list@, *device),
                AllowedUSBDevices::Denied(list) => !listed(list@, *device),
            },
    {
        match self {
            AllowedUSBDevices::Allowed(list) => contains(list, device),
            AllowedUSBDevices::Denied(list) => !contains(list, device),
        }
    }
}

} // verus!
