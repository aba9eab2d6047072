//! Advanced interrupt controllers: the values written to the local APIC,
//! the I/O APIC redirection table and MSI capabilities. The memory-mapped
//! register accesses themselves happen outside the library.
use vstd::prelude::*;

verus! {

/// First vector that belongs to hardware interrupts.
pub const FIRST_EXTERNAL_VECTOR: u8 = 32;

/// Base of MSI message addresses.
pub const MSI_ADDRESS_BASE: u32 = 0xFEE0_0000;

/// A processor's local APIC, by the base address of its registers.
#[derive(Debug, Clone, Copy, PartialEq, Eq, Structural)]
pub struct LocalApic {
    pub base_addr: u64,
}

impl LocalApic {
    /// The local APIC that the APIC-base register value `base_msr`
    /// describes: `None` when its enable bit (11) is clear.
    pub fn from_base_register(base_msr: u64) -> (r: Option<LocalApic>)
        ensures
            base_msr & 0x800 == 0 ==> r is None,
            base_msr & 0x800 != 0 ==> r == Some(LocalApic { base_addr: base_msr & 0xFFFF_F000 }),
    {
        if base_msr & (1u64 << 11) == 0 {
            assert(1u64 << 11 == 0x800) by (bit_vector);
            return None;
        }
        assert(1u64 << 11 == 0x800) by (bit_vector);
        Some(LocalApic { base_addr: base_msr & 0xFFFF_F000 })
    }
}

/// An I/O APIC and the size of its redirection table.
#[derive(Debug, Clone, Copy, PartialEq, Eq, Structural)]
pub struct IoApic {
    pub base_addr: u64,
    pub id: u8,
    pub max_redir_entries: u8,
}

impl IoApic {
    /// The I/O APIC at `base_addr` whose identification and version
    /// registers read `id_reg` and `ver_reg`: identifier in bits 24..31,
    /// last redirection entry in version bits 16..23.
    pub fn from_registers(base_addr: u64, id_reg: u32, ver_reg: u32) -> (r: IoApic)
        ensures
            r.base_addr == base_addr,
            r.id == (id_reg >> 24u32) as u8,
            r.max_redir_entries == (((ver_reg >> 16u32) & 0xFFu32) as u8).wrapping_add(1),
    {
        let max_entries = (((ver_reg >> 16) & 0xFF) as u8).wrapping_add(1);
        IoApic { base_addr, id: (id_reg >> 24) as u8, max_redir_entries: max_entries }
    }

    /// Number of redirection entries.
    pub fn max_entries(&self) -> (r: u8)
        ensures
            r == self.max_redir_entries,
    {
        self.max_redir_entries
    }

    /// Register index of the low half of redirection entry `index`.
    pub fn redirection_register(index: u8) -> (r: u32)
        ensures
            r == 0x10 + 2 * index,
    {
        0x10 + 2 * (index as u32)
    }

    /// The low and high words of redirection entry `index` routing to
    /// `vector` on processor `apic_id`; `None` past the table's end.
    pub fn redirection_entry(&self, index: u8, vector: u8, apic_id: u8, active_low: bool, level_triggered: bool) -> (r: Option<(u32, u32)>)
        ensures
            index >= self.max_redir_entries ==> r is None,
            index < self.max_redir_entries ==> r == Some((
                vector as u32 | (if level_triggered { 0x8000u32 } else { 0u32 }) | (if active_low { 0x2000u32 } else { 0u32 }),
                (apic_id as u32) << 24u32,
            )),
    {
        if index >= self.max_redir_entries {
            return None;
        }
        let mut low = vector as u32;
        let high = (apic_id as u32) << 24;
        if level_triggered {
            low = low | 0x8000;
        }
        if active_low {
            low = low | 0x2000;
        }
        proof {
            let v = vector as u32;
            assert(v | 0u32 == v) by (bit_vector);
            assert((v | 0x8000u32) | 0u32 == v | 0x8000u32) by (bit_vector);
        }
        Some((low, high))
    }

    /// The low word of a redirection entry with its mask bit (16) set or
    /// cleared.
    pub fn masked(low: u32, masked: bool) -> (r: u32)
        ensures
            masked ==> r == low | 0x1_0000u32,
            !masked ==> r == low & !0x1_0000u32,
    {
        if masked {
            low | 0x1_0000
        } else {
            low & !0x1_0000u32
        }
    }
}

/// Message-signalled interrupt capability of a device.
#[derive(Debug, Clone, Copy, PartialEq, Eq, Structural)]
pub struct MsiCapability {
    pub message_address: u32,
    pub message_data: u16,
}

impl MsiCapability {
    /// Message address and data for `vector` on processor `processor`: the
    /// processor in address bits 12..19, level trigger in data bit 14 and
    /// deassertion in data bit 15.
    pub fn configure(&self, vector: u8, processor: u8, edge_triggered: bool, assert: bool) -> (r: (u32, u32))
        ensures
            r.0 == MSI_ADDRESS_BASE | ((processor as u32) << 12u32),
            r.1 == vector as u32 | (if edge_triggered { 0u32 } else { 0x4000u32 }) | (if assert { 0u32 } else { 0x8000u32 }),
    {
        let address = MSI_ADDRESS_BASE | ((processor as u32) << 12);
        let mut data = vector as u32;
        if !edge_triggered {
            data = data | 0x4000;
        }
        if !assert {
            data = data | 0x8000;
        }
        proof {
            let v = vector as u32;
            assert(v | 0u32 == v) by (bit_vector);
            assert((v | 0x4000u32) | 0u32 == v | 0x4000u32) by (bit_vector);
        }
        (address, data)
    }
}

/// Number of I/O APICs the controller keeps.
pub const MAX_IOAPICS: usize = 16;

/// The local APIC of this processor and the system's I/O APICs.
pub struct AdvancedPic {
    lapic: LocalApic,
    ioapics: Vec<IoApic>,
}

impl AdvancedPic {
    pub closed spec fn lapic_spec(&self) -> LocalApic {
        self.lapic
    }

    pub closed spec fn ioapics_spec(&self) -> Seq<IoApic> {
        self.ioapics@
    }

    pub fn new(lapic: LocalApic) -> (r: AdvancedPic)
        ensures
            r.lapic_spec() == lapic,
            r.ioapics_spec().len() == 0,
    {
        AdvancedPic { lapic, ioapics: Vec::new() }
    }

    /// Records an I/O APIC; beyond `MAX_IOAPICS` it is ignored.
    pub fn add_ioapic(&mut self, ioapic: IoApic)
        ensures
            final(self).lapic_spec() == old(self).lapic_spec(),
            old(self).ioapics_spec().len() < MAX_IOAPICS ==> final(self).ioapics_spec() == old(self).ioapics_spec().push(ioapic),
            old(self).ioapics_spec().len() >= MAX_IOAPICS ==> final(self).ioapics_spec() == old(self).ioapics_spec(),
    {
        if self.ioapics.len() < MAX_IOAPICS {
            self.ioapics.push(ioapic);
        }
    }

    /// The redirection entry that routes `irq` to `vector` on `apic_id`
    /// through the first I/O APIC, edge-triggered, active high and unmasked,
    /// with the I/O APIC's base address; `None` without an I/O APIC or past
    /// its table.
    pub fn setup_interrupt(&self, irq: u8, vector: u8, apic_id: u8) -> (r: Option<(u64, u8, u32, u32)>)
        ensures
            self.ioapics_spec().len() == 0 ==> r is None,
            self.ioapics_spec().len() > 0 ==> {
                let io = self.ioapics_spec()[0];
                &&& irq >= io.max_redir_entries ==> r is None
                &&& irq < io.max_redir_entries ==> r == Some((io.base_addr, irq, vector as u32 & !0x1_0000u32, (apic_id as u32) << 24u32))
            },
    {
        if self.ioapics.len() == 0 {
            return None;
        }
        let io = self.ioapics[0];
        match io.redirection_entry(irq, vector, apic_id, false, false) {
            Some((low, high)) => {
                proof {
                    let v = vector as u32;
                    assert((v | 0u32) | 0u32 == v) by (bit_vector);
                }
                Some((io.base_addr, irq, IoApic::masked(low, false), high))
            },
            None => None,
        }
    }

    /// Whether finishing the interrupt `vector` needs an end-of-interrupt
    /// write to the local APIC: only hardware vectors (32 and up) do.
    pub fn notify_end_of_interrupt(&self, vector: u8) -> (r: bool)
        ensures
            r == (vector >= FIRST_EXTERNAL_VECTOR),
    {
        vector >= FIRST_EXTERNAL_VECTOR
    }

    pub fn lapic(&self) -> (r: &LocalApic)
        ensures
            *r == self.lapic_spec(),
    {
        &self.lapic
    }

    pub fn lapic_mut(&mut self) -> (r: &mut LocalApic)
        ensures
            *r == old(self).lapic_spec(),
            final(self).lapic_spec() == *final(r),
            final(self).ioapics_spec() == old(self).ioapics_spec(),
    {
        &mut self.lapic
    }
}

} // verus!
