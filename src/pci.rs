//! PCI devices and the table of devices found on the bus. Reading and
//! writing configuration space is port I/O and happens outside the library;
//! the library computes the configuration addresses and register values.
use vstd::prelude::*;

verus! {

/// Offset of the command register in configuration space.
pub const PCI_COMMAND: u8 = 0x04;

/// Devices the scanner records at most.
pub const MAX_PCI_DEVICES: usize = 256;

/// Class code of serial-bus controllers (USB among them).
pub const CLASS_SERIAL_BUS: u8 = 0x0C;

/// Subclass code of USB controllers.
pub const SUBCLASS_USB: u8 = 0x03;

/// One function of a PCI device, as read from its configuration space.
#[derive(Debug, Clone, Copy)]
pub struct PciDevice {
    pub bus: u8,
    pub device: u8,
    pub function: u8,
    pub vendor_id: u16,
    pub device_id: u16,
    pub class: u8,
    pub subclass: u8,
    pub prog_if: u8,
    pub revision: u8,
    pub header_type: u8,
    pub bars: [u32; 6],
    pub interrupt_line: u8,
    pub interrupt_pin: u8,
}

/// Address and size that a base address register describes.
pub open spec fn bar_spec(bar: u32) -> Option<(u64, usize)> {
    if bar == 0 {
        None
    } else if bar & 1 == 0 {
        Some(((bar & 0xffff_fff0u32) as u64, 4096usize))
    } else {
        Some(((bar & 0xffff_fffcu32) as u16 as u64, 256usize))
    }
}

impl PciDevice {
    /// Whether a device answered: absent slots read vendor 0xFFFF.
    pub fn is_present(&self) -> (r: bool)
        ensures
            r == (self.vendor_id != 0xFFFF),
    {
        self.vendor_id != 0xFFFF
    }

    /// Whether the device has more than one function (header bit 7).
    pub fn is_multifunction(&self) -> (r: bool)
        ensures
            r == (self.header_type & 0x80 != 0),
    {
        (self.header_type & 0x80) != 0
    }

    /// Address and size of base address register `index`: a memory BAR
    /// gives its 16-byte aligned address, an I/O BAR its port; sizes are
    /// fixed at 4096 and 256. `None` for an empty or missing BAR.
    pub fn get_bar(&self, index: usize) -> (r: Option<(u64, usize)>)
        ensures
            index >= 6 ==> r is None,
            index < 6 ==> r == bar_spec(self.bars@[index as int]),
    {
        if index >= 6 {
            return None;
        }
        let bar = self.bars[index];
        if bar == 0 {
            return None;
        }
        if (bar & 1) == 0 {
            let addr = (bar & !0xFu32) as u64;
            assert(!0xFu32 == 0xffff_fff0u32) by (bit_vector);
            Some((addr, 4096))
        } else {
            let port = (bar & !0x3u32) as u16;
            assert(!0x3u32 == 0xffff_fffcu32) by (bit_vector);
            Some((port as u64, 256))
        }
    }
}

/// The configuration-space address of a register: enable bit, bus, device,
/// function and the register's dword offset.
pub open spec fn config_address_spec(bus: u8, device: u8, function: u8, offset: u8) -> u32 {
    0x8000_0000u32 | ((bus as u32) << 16u32) | ((device as u32) << 11u32) | ((function as u32) << 8u32)
        | ((offset as u32) & 0xfcu32)
}

/// The value to write at `address` for the configuration-space address of
/// register `offset`.
pub fn config_address(bus: u8, device: u8, function: u8, offset: u8) -> (r: u32)
    ensures
        r == config_address_spec(bus, device, function, offset),
{
    assert((offset as u32) & !3u32 == (offset as u32) & 0xfcu32) by (bit_vector)
        requires
            (offset as u32) < 256,
    ;
    0x8000_0000u32 | ((bus as u32) << 16) | ((device as u32) << 11) | ((function as u32) << 8) | (offset as u32 & !3u32)
}

/// The dword to write back when the 16-bit register at `offset` becomes
/// `value` and its dword currently reads `current`.
pub open spec fn merge_word_spec(current: u32, offset: u8, value: u16) -> u32 {
    let shift = ((offset & 3u8) * 8u8) as u32;
    (current & !(0xFFFFu32 << shift)) | ((value as u32) << shift)
}

pub fn merge_config_word(current: u32, offset: u8, value: u16) -> (r: u32)
    ensures
        r == merge_word_spec(current, offset, value),
{
    assert((offset & 3u8) * 8u8 <= 24u8) by (bit_vector);
    let shift = ((offset & 3) * 8) as u32;
    let mask = !(0xFFFFu32 << shift);
    (current & mask) | ((value as u32) << shift)
}

/// The 16-bit register at `offset` inside the dword `dword`.
pub fn config_word(dword: u32, offset: u8) -> (r: u16)
    ensures
        r == ((dword >> (((offset & 2u8) * 8u8) as u32)) & 0xFFFFu32) as u16,
{
    assert((offset & 2u8) * 8u8 <= 16u8) by (bit_vector);
    ((dword >> (((offset & 2) * 8) as u32)) & 0xFFFF) as u16
}

/// The command word with bus mastering (bit 2) switched on.
pub fn with_bus_mastering(command: u16) -> (r: u16)
    ensures
        r == command | 4u16,
{
    command | 4
}

/// The command word with memory-space decoding (bit 1) switched on.
pub fn with_memory_space(command: u16) -> (r: u16)
    ensures
        r == command | 2u16,
{
    command | 2
}

/// The command word with I/O-space decoding (bit 0) switched on.
pub fn with_io_space(command: u16) -> (r: u16)
    ensures
        r == command | 1u16,
{
    command | 1
}

/// The devices found on the bus, in the order found.
pub struct PciScanner {
    devices: Vec<PciDevice>,
}

impl View for PciScanner {
    type V = Seq<PciDevice>;

    closed spec fn view(&self) -> Seq<PciDevice> {
        self.devices@
    }
}

/// Whether a device has the given class and subclass.
pub open spec fn class_is(class: u8, subclass: u8) -> spec_fn(PciDevice) -> bool {
    |d: PciDevice| d.class == class && d.subclass == subclass
}

/// Whether a device has the given vendor and device identifiers.
pub open spec fn id_is(vendor_id: u16, device_id: u16) -> spec_fn(PciDevice) -> bool {
    |d: PciDevice| d.vendor_id == vendor_id && d.device_id == device_id
}

impl PciScanner {
    pub open spec fn wf(&self) -> bool {
        self@.len() <= MAX_PCI_DEVICES
    }

    pub fn new() -> (r: PciScanner)
        ensures
            r.wf(),
            r@.len() == 0,
    {
        PciScanner { devices: Vec::new() }
    }

    /// Records `device`; once the table is full further devices are dropped.
    pub fn add_device(&mut self, device: PciDevice)
        requires
            old(self).wf(),
        ensures
            final(self).wf(),
            old(self)@.len() < MAX_PCI_DEVICES ==> final(self)@ == old(self)@.push(device),
            old(self)@.len() >= MAX_PCI_DEVICES ==> final(self)@ == old(self)@,
    {
        if self.devices.len() < MAX_PCI_DEVICES {
            self.devices.push(device);
        }
    }

    /// The device recorded at `index`.
    pub fn get_device(&self, index: usize) -> (r: Option<&PciDevice>)
        ensures
            index < self@.len() ==> r == Some(&self@[index as int]),
            index >= self@.len() ==> r is None,
    {
        if index < self.devices.len() {
            Some(&self.devices[index])
        } else {
            None
        }
    }

    /// Number of devices recorded.
    pub fn device_count(&self) -> (r: usize)
        ensures
            r == self@.len(),
    {
        self.devices.len()
    }

    /// The devices of a class and subclass, in the order found.
    pub fn find_devices(&self, class: u8, subclass: u8) -> (r: Vec<PciDevice>)
        ensures
            r@ == self@.filter(class_is(class, subclass)),
    {
        let ghost p = class_is(class, subclass);
        let mut out: Vec<PciDevice> = Vec::new();
        let mut i: usize = 0;
        while i < self.devices.len()
            invariant
                p == class_is(class, subclass),
                0 <= i <= self@.len(),
                out@ == self@.take(i as int).filter(p),
            decreases self@.len() - i,
        {
            let d = self.devices[i];
            proof {
                let t = self@.take(i as int + 1);
                assert(t.drop_last() =~= self@.take(i as int));
                assert(t.last() == d);
                reveal_with_fuel(Seq::filter, 1);
                assert(t.filter(p) == if p(t.last()) { t.drop_last().filter(p).push(t.last()) } else { t.drop_last().filter(p) });
            }
            let ghost before = out@;
            if d.class == class && d.subclass == subclass {
                out.push(d);
            }
            proof {
                let t = self@.take(i as int + 1);
                assert(t.drop_last().filter(p) == before);
                if p(d) {
                    assert(out@ == before.push(d));
                } else {
                    assert(out@ == before);
                }
                assert(out@ == t.filter(p));
            }
            i = i + 1;
        }
        assert(self@.take(self@.len() as int) =~= self@);
        out
    }

    /// The devices with a vendor and device identifier, in the order found.
    pub fn find_devices_by_id(&self, vendor_id: u16, device_id: u16) -> (r: Vec<PciDevice>)
        ensures
            r@ == self@.filter(id_is(vendor_id, device_id)),
    {
        let ghost p = id_is(vendor_id, device_id);
        let mut out: Vec<PciDevice> = Vec::new();
        let mut i: usize = 0;
        while i < self.devices.len()
            invariant
                p == id_is(vendor_id, device_id),
                0 <= i <= self@.len(),
                out@ == self@.take(i as int).filter(p),
            decreases self@.len() - i,
        {
            let d = self.devices[i];
            proof {
                let t = self@.take(i as int + 1);
                assert(t.drop_last() =~= self@.take(i as int));
                assert(t.last() == d);
                reveal_with_fuel(Seq::filter, 1);
                assert(t.filter(p) == if p(t.last()) { t.drop_last().filter(p).push(t.last()) } else { t.drop_last().filter(p) });
            }
            let ghost before = out@;
            if d.vendor_id == vendor_id && d.device_id == device_id {
                out.push(d);
            }
            proof {
                let t = self@.take(i as int + 1);
                assert(t.drop_last().filter(p) == before);
                if p(d) {
                    assert(out@ == before.push(d));
                } else {
                    assert(out@ == before);
                }
                assert(out@ == t.filter(p));
            }
            i = i + 1;
        }
        assert(self@.take(self@.len() as int) =~= self@);
        out
    }
}

} // verus!
