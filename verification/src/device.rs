//! Descriptors of the zram devices to generate units for.

use vstd::prelude::*;

verus! {

/// Number of bytes in the megabyte in which device sizes are reported.
pub const BYTES_PER_MEGABYTE: u64 = 1048576;

/// One configured zram device.
///
/// The name is used as it is to build unit names and device paths; it is
/// expected to have been validated by whoever read the configuration.
#[derive(Clone, Debug, PartialEq, Eq)]
pub struct Device {
    /// Kernel name of the device, such as `zram0`.
    pub name: String,
    /// Size of the device in bytes.
    pub disksize: u64,
}

/// A device as the specifications see it.
pub struct DeviceView {
    pub name: Seq<char>,
    pub disksize: u64,
}

impl DeviceView {
    /// The device size in whole megabytes, rounded down.
    pub open spec fn megabytes(self) -> nat {
        (self.disksize / BYTES_PER_MEGABYTE) as nat
    }
}

impl View for Device {
    type V = DeviceView;

    open spec fn view(&self) -> DeviceView {
        DeviceView { name: self.name@, disksize: self.disksize }
    }
}

impl DeepView for Device {
    type V = DeviceView;

    open spec fn deep_view(&self) -> DeviceView {
        self@
    }
}

impl Device {
    /// Describes the device `name` of `disksize` bytes.
    pub fn new(name: String, disksize: u64) -> (device: Device)
        ensures
            device@ == (DeviceView { name: name@, disksize }),
    {
        Device { name, disksize }
    }

    /// The device size in whole megabytes, rounded down.
    pub fn megabytes(&self) -> (megabytes: u64)
        ensures
            megabytes == self@.megabytes(),
    {
        self.disksize / BYTES_PER_MEGABYTE
    }
}

} // verus!
