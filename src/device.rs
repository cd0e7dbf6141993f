//! What the library knows of a USB device apart from its storage: its
//! identity, its configurations, and the filters that pick devices.
use vstd::prelude::*;
use vstd::string::StringExecFns;

verus! {

/// Google's USB vendor id.
pub const STADIA_VENDOR_ID: u16 = 0x18d1;

/// The product id of the Stadia controller.
pub const STADIA_PRODUCT_ID: u16 = 0x9400;

/// Criteria that select devices; a field left `None` matches any device.
pub struct DeviceFilter {
    pub vendor_id: Option<u16>,
    pub product_id: Option<u16>,
    pub serial_number: Option<String>,
    pub class_code: String,
    pub subclass_code: String,
    pub protocol_code: String,
}

/// One configuration of a device, with its name when it has one.
pub struct ConfigurationDescriptor {
    pub number: u8,
    pub name: Option<String>,
}

/// A device on the bus: its ids, its product name when it could be read,
/// and its configurations when they could be read.
pub struct UsbDevice {
    pub vendor_id: u16,
    pub product_id: u16,
    pub product_name: Option<String>,
    pub configurations: Option<Vec<ConfigurationDescriptor>>,
}

impl UsbDevice {
    /// Whether the device is a Stadia controller.
    pub fn is_stadia_device(&self) -> (r: bool)
        ensures
            r == (self.product_id == STADIA_PRODUCT_ID && self.vendor_id == STADIA_VENDOR_ID),
    {
        self.product_id == STADIA_PRODUCT_ID && self.vendor_id == STADIA_VENDOR_ID
    }
}

/// A configuration's name, or "?" for one without a name.
pub open spec fn config_label(c: ConfigurationDescriptor) -> Seq<char> {
    match c.name {
        Some(name) => name@,
        None => seq!['?'],
    }
}

/// The labels of `configs`, separated by ", ".
pub open spec fn joined_labels(configs: Seq<ConfigurationDescriptor>) -> Seq<char>
    decreases configs.len(),
{
    if configs.len() == 0 {
        Seq::empty()
    } else if configs.len() == 1 {
        config_label(configs[0])
    } else {
        joined_labels(configs.drop_last()) + seq![',', ' '] + config_label(configs.last())
    }
}

/// A device's product name, or a placeholder when it could not be read.
pub open spec fn name_label(d: UsbDevice) -> Seq<char> {
    match d.product_name {
        Some(name) => name@,
        None => "Could not resolve name"@,
    }
}

/// The view of an optional string.
pub open spec fn optional_text(s: Option<String>) -> Option<Seq<char>> {
    match s {
        Some(t) => Some(t@),
        None => None,
    }
}

/// The configuration names of a device: `None` when its configurations
/// could not be read.
pub open spec fn config_names(d: UsbDevice) -> Option<Seq<char>> {
    match d.configurations {
        Some(configs) => Some(joined_labels(configs@)),
        None => None,
    }
}

/// Groups the device queries of the component.
pub struct Component;

impl Component {
    /// The names of a device's configurations, separated by ", ", with "?"
    /// for a configuration without a name; `None` when the configurations
    /// could not be read.
    pub fn get_device_config_names(device: &UsbDevice) -> (r: Option<String>)
        ensures
            optional_text(r) == config_names(*device),
    {
        match &device.configurations {
            None => None,
            Some(configs) => {
                let mut out = String::new();
                let mut i: usize = 0;
                while i < configs.len()
                    invariant
                        i <= configs@.len(),
                        out@ == joined_labels(configs@.subrange(0, i as int)),
                    decreases configs@.len() - i,
                {
                    if i > 0 {
                        out.append(", ");
                        proof {
                            reveal_strlit(", ");
                        }
                    }
                    match &configs[i].name {
                        Some(name) => out.append(name.as_str()),
                        None => {
                            out.append("?");
                            proof {
                                reveal_strlit("?");
                            }
                        },
                    }
                    proof {
                        let next = configs@.subrange(0, i + 1);
                        assert(next.drop_last() =~= configs@.subrange(0, i as int));
                        assert(next.last() == configs@[i as int]);
                    }
                    i = i + 1;
                }
                assert(configs@.subrange(0, configs@.len() as int) =~= configs@);
                Some(out)
            },
        }
    }

    /// For each device, its product name (or a placeholder) and its
    /// configuration names.
    pub fn get_all_device_names(devices: &Vec<UsbDevice>) -> (r: Vec<(String, Option<String>)>)
        ensures
            r@.len() == devices@.len(),
            forall|i: int|
                0 <= i < r@.len() ==> r@[i].0@ == name_label(devices@[i]) && optional_text(
                    r@[i].1,
                ) == config_names(devices@[i]),
    {
        let mut out: Vec<(String, Option<String>)> = Vec::new();
        let mut i: usize = 0;
        while i < devices.len()
            invariant
                i <= devices@.len(),
                out@.len() == i,
                forall|j: int|
                    0 <= j < i ==> out@[j].0@ == name_label(devices@[j]) && optional_text(
                        out@[j].1,
                    ) == config_names(devices@[j]),
            decreases devices@.len() - i,
        {
            let device = &devices[i];
            let name = match &device.product_name {
                Some(name) => name.clone(),
                None => {
                    proof {
                        reveal_strlit("Could not resolve name");
                    }
                    String::from_str("Could not resolve name")
                },
            };
            let configs = Component::get_device_config_names(device);
            out.push((name, configs));
            i = i + 1;
        }
        out
    }
}

} // verus!
