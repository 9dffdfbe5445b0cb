//! Serial ports as the URI logic and the listing read them: a name, and USB
//! identifiers for USB ports.  Scanning the system for them is left to the caller.

use vstd::prelude::*;

verus! {

/// USB identifiers of a port.
#[derive(Debug)]
pub struct UsbPortInfo {
    /// Vendor ID.
    pub vid: u16,
    /// Product ID.
    pub pid: u16,
    /// Serial number, when the device reports one.
    pub serial_number: Option<String>,
}

/// Mathematical model of a [`UsbPortInfo`].
pub struct UsbPortInfoView {
    pub vid: u16,
    pub pid: u16,
    pub serial_number: Option<Seq<char>>,
}

impl View for UsbPortInfo {
    type V = UsbPortInfoView;

    open spec fn view(&self) -> UsbPortInfoView {
        UsbPortInfoView {
            vid: self.vid,
            pid: self.pid,
            serial_number: self.serial_number.deep_view(),
        }
    }
}

/// A serial port: its name, and its USB identifiers when it is a USB port.
#[derive(Debug)]
pub struct PortInfo {
    /// The short name of the port (e.g. `/dev/ttyUSB0`).
    pub port_name: String,
    /// USB identifiers; `None` for PCI, Bluetooth and unknown ports.
    pub usb: Option<UsbPortInfo>,
}

/// Mathematical model of a [`PortInfo`].
pub struct PortInfoView {
    pub port_name: Seq<char>,
    pub usb: Option<UsbPortInfoView>,
}

impl View for PortInfo {
    type V = PortInfoView;

    open spec fn view(&self) -> PortInfoView {
        PortInfoView {
            port_name: self.port_name@,
            usb: match self.usb {
                Some(u) => Some(u@),
                None => None,
            },
        }
    }
}

/// The views of a list of ports.
pub open spec fn port_views(ports: Seq<PortInfo>) -> Seq<PortInfoView> {
    ports.map_values(|p: PortInfo| p@)
}

} // verus!
