//! PCI configuration space: the device records the enumerator produces,
//! the lookup that hands matching devices to a driver, and the pure
//! pieces of configuration-space access — the address encoding and the
//! register decodings.

use vstd::prelude::*;

verus! {

/// A device found on the bus, with the identifiers read from its
/// configuration space.
#[derive(Clone, Copy, PartialEq, Eq, Debug)]
pub struct PCIDevice {
    pub bus_number: u16,
    pub device_number: u16,
    pub device_id: u16,
    pub vendor_id: u16,
    pub subsystem_id: u16,
    pub subsystem_vendor_id: u16,
    /// Offset of the device's message-signalled-interrupt capability,
    /// when it has one.
    pub msi_capability_pointer: Option<u16>,
}

/// The enumerated bus: every device found, until a driver takes it.
pub struct PCI {
    /// Devices not yet claimed by a driver.
    pub devices: Vec<PCIDevice>,
}

/// The devices of `s` that carry the given vendor and device id.
pub open spec fn matching_devices(s: Seq<PCIDevice>, vendor_id: u16, device_id: u16) -> Seq<
    PCIDevice,
> {
    s.filter(|d: PCIDevice| d.vendor_id == vendor_id && d.device_id == device_id)
}

/// The devices of `s` that do not carry the given vendor and device id.
pub open spec fn other_devices(s: Seq<PCIDevice>, vendor_id: u16, device_id: u16) -> Seq<
    PCIDevice,
> {
    s.filter(|d: PCIDevice| !(d.vendor_id == vendor_id && d.device_id == device_id))
}

impl PCI {
    /// Hands ownership of every device matching the vendor and device
    /// id to the caller, keeping the rest, in order.
    pub fn get_device(&mut self, vendor_id: u16, device_id: u16) -> (v: Vec<PCIDevice>)
        ensures
            v@ == matching_devices(old(self).devices@, vendor_id, device_id),
            final(self).devices@ == other_devices(old(self).devices@, vendor_id, device_id),
    {
        let ghost orig = self.devices@;
        let mut v: Vec<PCIDevice> = Vec::new();
        let mut rest: Vec<PCIDevice> = Vec::new();
        let mut i: usize = 0;
        while i < self.devices.len()
            invariant
                i <= self.devices@.len(),
                self.devices@ == orig,
                v@ == matching_devices(orig.subrange(0, i as int), vendor_id, device_id),
                rest@ == other_devices(orig.subrange(0, i as int), vendor_id, device_id),
            decreases self.devices@.len() - i,
        {
            proof {
                reveal_with_fuel(Seq::filter, 2);
                assert(orig.subrange(0, i as int + 1).drop_last() =~= orig.subrange(0, i as int));
                assert(orig.subrange(0, i as int + 1).last() == orig[i as int]);
            }
            let d = self.devices[i];
            if d.vendor_id == vendor_id && d.device_id == device_id {
                v.push(d);
            } else {
                rest.push(d);
            }
            i = i + 1;
        }
        proof {
            assert(orig.subrange(0, orig.len() as int) =~= orig);
        }
        self.devices = rest;
        v
    }
}

/// The configuration-space address select value for a register: the
/// enable bit, the bus in bits 23:16, the device in bits 15:11, the
/// function in bits 10:8, and the doubleword-aligned register offset.
pub open spec fn config_address_spec(
    bus_number: u32,
    device_number: u32,
    function: u32,
    offset: u32,
) -> u32 {
    0x80000000u32 | (bus_number << 16) | (device_number << 11) | ((function & 0b111) << 8) | (
    offset & 0xFC)
}

impl PCIDevice {
    /// The address-select value for reading or writing one of this
    /// device's configuration registers.
    pub fn config_address(&self, offset: u16, function: u32) -> (r: u32)
        ensures
            r == config_address_spec(
                self.bus_number as u32,
                self.device_number as u32,
                function,
                offset as u32,
            ),
    {
        let n_bus = self.bus_number as u32;
        let n_device = self.device_number as u32;
        let function: u32 = (function & 0b111) << 8;
        0x80000000 | (n_bus << 16) | (n_device << 11) | function | ((offset as u32) & 0xFC)
    }
}

/// The command register held in the low half of the configuration
/// doubleword at offset 4.
pub fn control_register_of(cfg: u32) -> (r: u16)
    ensures
        r == cfg & 0x0000FFFF,
{
    proof {
        assert(cfg & 0x0000FFFF <= 0xFFFF) by (bit_vector);
    }
    (cfg & 0x0000FFFF) as u16
}

/// The status register held in the high half of the configuration
/// doubleword at offset 4.
pub fn status_register_of(cfg: u32) -> (r: u16)
    ensures
        r == (cfg & 0xffff0000) >> 16,
{
    proof {
        assert((cfg & 0xffff0000) >> 16 <= 0xFFFF) by (bit_vector);
    }
    ((cfg & 0xffff0000) >> 16) as u16
}

} // verus!
