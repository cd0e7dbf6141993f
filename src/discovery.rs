//! Picking the Bulk-Only Transport interface of a mass storage device, and
//! its bulk endpoints, out of the descriptors the bus reports.
use vstd::prelude::*;

verus! {

/// Interface class of mass storage.
pub const MASS_STORAGE_CLASS: u8 = 0x08;

/// Interface protocol of the Bulk-Only Transport.
pub const BULK_ONLY_PROTOCOL: u8 = 0x50;

#[derive(Clone, Copy, PartialEq, Eq, Debug, Structural)]
pub enum TransferType {
    Control,
    Isochronous,
    Bulk,
    Interrupt,
}

#[derive(Clone, Copy, PartialEq, Eq, Debug, Structural)]
pub enum EndpointDirection {
    In,
    Out,
}

#[derive(Clone, Copy, PartialEq, Eq, Debug, Structural)]
pub struct EndpointDescriptor {
    pub address: u8,
    pub direction: EndpointDirection,
    pub transfer_type: TransferType,
}

/// One alternate setting of an interface, with its endpoints.
pub struct InterfaceDescriptor {
    pub number: u8,
    pub class_code: u8,
    pub subclass_code: u8,
    pub protocol_code: u8,
    pub endpoints: Vec<EndpointDescriptor>,
}

/// The interface and the two bulk endpoints the driver talks through.
#[derive(Clone, Copy, PartialEq, Eq, Debug, Structural)]
pub struct BulkOnlyInterface {
    pub interface_number: u8,
    pub endpoint_in: u8,
    pub endpoint_out: u8,
}

/// Why no Bulk-Only Transport interface could be used.
#[derive(Clone, Copy, PartialEq, Eq, Debug, Structural)]
pub enum DiscoveryError {
    NoMassStorageInterface,
    NoBulkInEndpoint,
    NoBulkOutEndpoint,
}

pub open spec fn is_bulk_only(i: InterfaceDescriptor) -> bool {
    i.class_code == MASS_STORAGE_CLASS && i.protocol_code == BULK_ONLY_PROTOCOL
}

pub open spec fn is_bulk(e: EndpointDescriptor, direction: EndpointDirection) -> bool {
    e.transfer_type == TransferType::Bulk && e.direction == direction
}

/// `k` is the first Bulk-Only Transport interface of `s`.
pub open spec fn first_bulk_only(s: Seq<InterfaceDescriptor>, k: int) -> bool {
    &&& 0 <= k < s.len()
    &&& is_bulk_only(s[k])
    &&& forall|j: int| 0 <= j < k ==> !is_bulk_only(#[trigger] s[j])
}

/// `k` is the first bulk endpoint of `s` in `direction`.
pub open spec fn first_bulk(s: Seq<EndpointDescriptor>, direction: EndpointDirection, k: int) -> bool {
    &&& 0 <= k < s.len()
    &&& is_bulk(s[k], direction)
    &&& forall|j: int| 0 <= j < k ==> !is_bulk(#[trigger] s[j], direction)
}

pub open spec fn has_bulk_only(s: Seq<InterfaceDescriptor>) -> bool {
    exists|k: int| 0 <= k < s.len() && is_bulk_only(#[trigger] s[k])
}

pub open spec fn has_bulk(s: Seq<EndpointDescriptor>, direction: EndpointDirection) -> bool {
    exists|k: int| 0 <= k < s.len() && is_bulk(#[trigger] s[k], direction)
}

/// What the descriptors of one interface give: its number and its first
/// bulk endpoints, or which of them is missing.
pub open spec fn endpoints_of(i: InterfaceDescriptor) -> Result<BulkOnlyInterface, DiscoveryError> {
    let eps = i.endpoints@;
    if !has_bulk(eps, EndpointDirection::In) {
        Err(DiscoveryError::NoBulkInEndpoint)
    } else if !has_bulk(eps, EndpointDirection::Out) {
        Err(DiscoveryError::NoBulkOutEndpoint)
    } else {
        let a = choose|a: int| first_bulk(eps, EndpointDirection::In, a);
        let b = choose|b: int| first_bulk(eps, EndpointDirection::Out, b);
        Ok(
            BulkOnlyInterface {
                interface_number: i.number,
                endpoint_in: eps[a].address,
                endpoint_out: eps[b].address,
            },
        )
    }
}

fn find_bulk_endpoint(endpoints: &Vec<EndpointDescriptor>, direction: EndpointDirection) -> (r:
    Option<usize>)
    ensures
        match r {
            Some(k) => first_bulk(endpoints@, direction, k as int),
            None => !has_bulk(endpoints@, direction),
        },
{
    let mut k: usize = 0;
    while k < endpoints.len()
        invariant
            k <= endpoints@.len(),
            forall|j: int| 0 <= j < k ==> !is_bulk(#[trigger] endpoints@[j], direction),
        decreases endpoints@.len() - k,
    {
        let e = endpoints[k];
        let bulk = match e.transfer_type {
            TransferType::Bulk => true,
            _ => false,
        };
        let same_direction = match (e.direction, direction) {
            (EndpointDirection::In, EndpointDirection::In) => true,
            (EndpointDirection::Out, EndpointDirection::Out) => true,
            _ => false,
        };
        if bulk && same_direction {
            return Some(k);
        }
        k = k + 1;
    }
    None
}

proof fn lemma_first_bulk_unique(s: Seq<EndpointDescriptor>, direction: EndpointDirection, a: int, b: int)
    requires
        first_bulk(s, direction, a),
        first_bulk(s, direction, b),
    ensures
        a == b,
{
    if a < b {
        assert(!is_bulk(s[a], direction));
    } else if b < a {
        assert(!is_bulk(s[b], direction));
    }
}

/// The number and the first bulk IN and OUT endpoints of a Bulk-Only
/// Transport interface.
pub fn bulk_endpoints(interface: &InterfaceDescriptor) -> (r: Result<BulkOnlyInterface, DiscoveryError>)
    ensures
        r == endpoints_of(*interface),
{
    let endpoint_in = match find_bulk_endpoint(&interface.endpoints, EndpointDirection::In) {
        None => return Err(DiscoveryError::NoBulkInEndpoint),
        Some(a) => a,
    };
    let endpoint_out = match find_bulk_endpoint(&interface.endpoints, EndpointDirection::Out) {
        None => return Err(DiscoveryError::NoBulkOutEndpoint),
        Some(b) => b,
    };
    proof {
        let eps = interface.endpoints@;
        let a = choose|a: int| first_bulk(eps, EndpointDirection::In, a);
        let b = choose|b: int| first_bulk(eps, EndpointDirection::Out, b);
        lemma_first_bulk_unique(eps, EndpointDirection::In, a, endpoint_in as int);
        lemma_first_bulk_unique(eps, EndpointDirection::Out, b, endpoint_out as int);
    }
    Ok(
        BulkOnlyInterface {
            interface_number: interface.number,
            endpoint_in: interface.endpoints[endpoint_in].address,
            endpoint_out: interface.endpoints[endpoint_out].address,
        },
    )
}

fn find_bulk_only(interfaces: &Vec<InterfaceDescriptor>) -> (r: Option<usize>)
    ensures
        match r {
            Some(k) => first_bulk_only(interfaces@, k as int),
            None => !has_bulk_only(interfaces@),
        },
{
    let mut k: usize = 0;
    while k < interfaces.len()
        invariant
            k <= interfaces@.len(),
            forall|j: int| 0 <= j < k ==> !is_bulk_only(#[trigger] interfaces@[j]),
        decreases interfaces@.len() - k,
    {
        if interfaces[k].class_code == MASS_STORAGE_CLASS && interfaces[k].protocol_code
            == BULK_ONLY_PROTOCOL {
            return Some(k);
        }
        k = k + 1;
    }
    None
}

/// The first Bulk-Only Transport interface among `interfaces`, with its
/// bulk endpoints; the interfaces after it are not considered.
pub fn find_bulk_only_interface(interfaces: &Vec<InterfaceDescriptor>) -> (r: Result<
    BulkOnlyInterface,
    DiscoveryError,
>)
    ensures
        !has_bulk_only(interfaces@) <==> r == Err::<BulkOnlyInterface, DiscoveryError>(
            DiscoveryError::NoMassStorageInterface,
        ),
        forall|k: int| first_bulk_only(interfaces@, k) ==> r == endpoints_of(interfaces@[k]),
{
    match find_bulk_only(interfaces) {
        None => Err(DiscoveryError::NoMassStorageInterface),
        Some(k) => {
            proof {
                assert forall|j: int| first_bulk_only(interfaces@, j) implies j == k by {
                    if j < k {
                        assert(!is_bulk_only(interfaces@[j]));
                    } else if k < j {
                        assert(!is_bulk_only(interfaces@[k as int]));
                    }
                }
            }
            bulk_endpoints(&interfaces[k])
        },
    }
}

/// The first device, given as the interfaces of its first configuration,
/// that has a Bulk-Only Transport interface: its index, and that interface
/// with its bulk endpoints.
pub fn select_device(devices: &Vec<Vec<InterfaceDescriptor>>) -> (r: Result<
    (usize, BulkOnlyInterface),
    DiscoveryError,
>)
    ensures
        match r {
            Ok((d, b)) => {
                &&& d < devices@.len()
                &&& has_bulk_only(devices@[d as int]@)
                &&& forall|e: int| 0 <= e < d ==> !has_bulk_only(#[trigger] devices@[e]@)
                &&& forall|k: int|
                    first_bulk_only(devices@[d as int]@, k) ==> endpoints_of(devices@[d as int]@[k])
                        == Ok::<BulkOnlyInterface, DiscoveryError>(b)
            },
            Err(DiscoveryError::NoMassStorageInterface) => forall|e: int|
                0 <= e < devices@.len() ==> !has_bulk_only(#[trigger] devices@[e]@),
            Err(err) => exists|d: int|
                0 <= d < devices@.len() && has_bulk_only(#[trigger] devices@[d]@) && (forall|e: int|
                    0 <= e < d ==> !has_bulk_only(#[trigger] devices@[e]@)) && (forall|k: int|
                    first_bulk_only(devices@[d]@, k) ==> endpoints_of(devices@[d]@[k])
                        == Err::<BulkOnlyInterface, DiscoveryError>(err)),
        },
{
    let mut d: usize = 0;
    while d < devices.len()
        invariant
            d <= devices@.len(),
            forall|e: int| 0 <= e < d ==> !has_bulk_only(#[trigger] devices@[e]@),
        decreases devices@.len() - d,
    {
        match find_bulk_only_interface(&devices[d]) {
            Err(DiscoveryError::NoMassStorageInterface) => {},
            Err(err) => {
                assert(has_bulk_only(devices@[d as int]@));
                return Err(err);
            },
            Ok(b) => {
                return Ok((d, b));
            },
        }
        d = d + 1;
    }
    Err(DiscoveryError::NoMassStorageInterface)
}

} // verus!
