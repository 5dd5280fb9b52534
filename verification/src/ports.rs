//! The port directory: turns one host scan into an ordered sequence
//! of port descriptors. The scan itself is the shell's job; this
//! module decides what a scan outcome means: a failed enumeration is
//! an error, an empty scan is simply "no devices found".

use vstd::prelude::*;
use crate::errors::PortError;

verus! {

/// The kind of bus a discovered port sits on.
#[derive(Clone, Copy, Debug, PartialEq, Eq, Structural)]
pub enum PortType {
    Usb,
    Pci,
    Bluetooth,
    Unknown,
}

/// Model of one discoverable device.
pub struct DescriptorModel {
    pub path: Seq<char>,
    pub vendor_id: Option<u16>,
    pub product_id: Option<u16>,
    pub port_type: PortType,
}

/// Identifying information for one discoverable serial device,
/// recreated fresh on every scan and never persisted.
pub struct PortDescriptor {
    pub path: String,
    pub vendor_id: Option<u16>,
    pub product_id: Option<u16>,
    pub port_type: PortType,
}

impl View for PortDescriptor {
    type V = DescriptorModel;

    open spec fn view(&self) -> DescriptorModel {
        DescriptorModel {
            path: self.path@,
            vendor_id: self.vendor_id,
            product_id: self.product_id,
            port_type: self.port_type,
        }
    }
}

/// One entry as the host reports it: the metadata as plain values,
/// with the bus kind as a small code.
pub struct RawPortInfo {
    pub path: String,
    pub vendor_id: Option<u16>,
    pub product_id: Option<u16>,
    pub type_code: u8,
}

/// Model of one raw scan entry.
pub struct RawPortModel {
    pub path: Seq<char>,
    pub vendor_id: Option<u16>,
    pub product_id: Option<u16>,
    pub type_code: u8,
}

impl View for RawPortInfo {
    type V = RawPortModel;

    open spec fn view(&self) -> RawPortModel {
        RawPortModel {
            path: self.path@,
            vendor_id: self.vendor_id,
            product_id: self.product_id,
            type_code: self.type_code,
        }
    }
}

/// The bus kind a raw type code stands for: 1 is USB, 2 is PCI, 3 is
/// Bluetooth, anything else is unknown.
pub open spec fn port_type_of_code(code: u8) -> PortType {
    if code == 1 {
        PortType::Usb
    } else if code == 2 {
        PortType::Pci
    } else if code == 3 {
        PortType::Bluetooth
    } else {
        PortType::Unknown
    }
}

/// The descriptor one raw entry turns into.
pub open spec fn descriptor_of(raw: RawPortModel) -> DescriptorModel {
    DescriptorModel {
        path: raw.path,
        vendor_id: raw.vendor_id,
        product_id: raw.product_id,
        port_type: port_type_of_code(raw.type_code),
    }
}

/// Turns a scan outcome into the directory's answer. `scan` is
/// `None` when the host's enumeration call itself failed; then and
/// only then the directory reports `EnumerationFailed`. A successful
/// scan yields its entries as descriptors in scan order; an empty
/// scan is an empty sequence, not an error.
pub fn list_ports(scan: Option<Vec<RawPortInfo>>) -> (r: Result<Vec<PortDescriptor>, PortError>)
    ensures
        match r {
            Ok(ds) => match scan {
                Some(raws) => ds@.map(|i: int, d: PortDescriptor| d@) == raws@.map(
                    |i: int, w: RawPortInfo| descriptor_of(w@),
                ),
                None => false,
            },
            Err(e) => scan is None && e == PortError::EnumerationFailed,
        },
{
    match scan {
        Some(raws) => {
            let mut ds: Vec<PortDescriptor> = Vec::new();
            let mut i: usize = 0;
            while i < raws.len()
                invariant
                    i <= raws@.len(),
                    ds@.len() == i,
                    forall|j: int| 0 <= j < i ==> (#[trigger] ds@[j])@ == descriptor_of(
                        raws@[j]@,
                    ),
                decreases raws@.len() - i,
            {
                let w = &raws[i];
                let port_type = if w.type_code == 1 {
                    PortType::Usb
                } else if w.type_code == 2 {
                    PortType::Pci
                } else if w.type_code == 3 {
                    PortType::Bluetooth
                } else {
                    PortType::Unknown
                };
                let d = PortDescriptor {
                    path: w.path.clone(),
                    vendor_id: w.vendor_id,
                    product_id: w.product_id,
                    port_type,
                };
                proof {
                    assert(d@ == descriptor_of(raws@[i as int]@));
                }
                ds.push(d);
                i = i + 1;
            }
            proof {
                assert(ds@.map(|i: int, d: PortDescriptor| d@) =~= raws@.map(
                    |i: int, w: RawPortInfo| descriptor_of(w@),
                ));
            }
            Ok(ds)
        },
        None => Err(PortError::EnumerationFailed),
    }
}

} // verus!
