//! AHCI (SATA) host controllers: which ports hold a device, and where each
//! port's command list and received-FIS area live. The memory-mapped
//! register accesses happen outside the library.
use vstd::prelude::*;
use crate::pci::{bar_spec, PciDevice};

verus! {

/// Class code of mass-storage controllers.
pub const CLASS_STORAGE: u8 = 0x01;

/// Subclass code of SATA controllers.
pub const SUBCLASS_SATA: u8 = 0x06;

/// Ports a controller has at most.
pub const AHCI_MAX_PORTS: usize = 32;

/// Signature of a SATA disk.
pub const SATA_SIGNATURE: u32 = 0x0000_0101;

/// Address given to a started port's command list.
pub const COMMAND_LIST_BASE: u64 = 0x10_0000;

/// Address given to a started port's received-FIS area.
pub const FIS_BASE: u64 = 0x10_1000;

/// What a port has attached.
#[derive(Debug, Clone, Copy, PartialEq, Eq, Structural)]
pub enum PortState {
    NoDevice,
    Present,
    Active,
}

/// The state that a port's status (`ssts`) and signature (`sig`) registers
/// report: a device is there when detection reads 3 and the interface is
/// active (power state 1); a SATA disk signature makes it usable.
pub open spec fn port_state_spec(ssts: u32, sig: u32) -> PortState {
    if ssts & 0x0F == 3 && (ssts >> 8u32) & 0x0F == 1 {
        if sig == SATA_SIGNATURE {
            PortState::Active
        } else {
            PortState::Present
        }
    } else {
        PortState::NoDevice
    }
}

/// One port of a controller.
#[derive(Debug, Clone, Copy, PartialEq, Eq, Structural)]
pub struct AhciPort {
    pub port_base: u64,
    pub state: PortState,
    pub command_list: Option<u64>,
    pub fis_base: Option<u64>,
}

impl AhciPort {
    pub fn new(port_base: u64) -> (r: AhciPort)
        ensures
            r == (AhciPort { port_base, state: PortState::NoDevice, command_list: None, fis_base: None }),
    {
        AhciPort { port_base, state: PortState::NoDevice, command_list: None, fis_base: None }
    }

    /// Records what the port's status and signature registers report.
    pub fn probe(&mut self, ssts: u32, sig: u32)
        ensures
            *final(self) == (AhciPort { state: port_state_spec(ssts, sig), ..*old(self) }),
    {
        let ipm = (ssts >> 8) & 0x0F;
        let det = ssts & 0x0F;
        if det == 0x03 && ipm == 0x01 {
            if sig == SATA_SIGNATURE {
                self.state = PortState::Active;
            } else {
                self.state = PortState::Present;
            }
        } else {
            self.state = PortState::NoDevice;
        }
    }

    /// Gives the port its command list and received-FIS area.
    pub fn start(&mut self)
        ensures
            *final(self) == (AhciPort {
                command_list: Some(COMMAND_LIST_BASE),
                fis_base: Some(FIS_BASE),
                ..*old(self)
            }),
    {
        self.command_list = Some(COMMAND_LIST_BASE);
        self.fis_base = Some(FIS_BASE);
    }

    /// Sector reads are not supported: always an error.
    pub fn read_sectors(&self, start_sector: u64, sector_count: u8, buffer: &mut [u8]) -> (r: Result<(), &'static str>)
        ensures
            r is Err,
            final(buffer)@ == old(buffer)@,
    {
        if self.state != PortState::Active {
            return Err("No active SATA device");
        }
        Err("AHCI read not implemented")
    }

    /// Sector writes are not supported: always an error.
    pub fn write_sectors(&self, start_sector: u64, sector_count: u8, buffer: &[u8]) -> (r: Result<(), &'static str>)
        ensures
            r is Err,
    {
        if self.state != PortState::Active {
            return Err("No active SATA device");
        }
        Err("AHCI write not implemented")
    }
}

/// An AHCI controller and the ports that have a device attached.
pub struct AhciController {
    base_addr: u64,
    ports: Vec<AhciPort>,
}

impl AhciController {
    pub closed spec fn base(&self) -> u64 {
        self.base_addr
    }

    pub closed spec fn ports(&self) -> Seq<AhciPort> {
        self.ports@
    }

    pub open spec fn wf(&self) -> bool {
        &&& self.ports().len() <= AHCI_MAX_PORTS
        &&& self.base() <= u32::MAX
    }

    /// The controller behind `pci_device`, its registers at BAR 5, with no
    /// ports recorded yet. Fails for a device that is not a SATA storage
    /// controller or has no BAR 5.
    pub fn new(pci_device: &PciDevice) -> (r: Result<AhciController, &'static str>)
        ensures
            (pci_device.class != CLASS_STORAGE || pci_device.subclass != SUBCLASS_SATA)
                ==> r == Err::<AhciController, &'static str>("Not an AHCI SATA controller"),
            pci_device.class == CLASS_STORAGE && pci_device.subclass == SUBCLASS_SATA && bar_spec(pci_device.bars@[5]) is None
                ==> r == Err::<AhciController, &'static str>("No AHCI BAR found"),
            pci_device.class == CLASS_STORAGE && pci_device.subclass == SUBCLASS_SATA
                ==> (bar_spec(pci_device.bars@[5]) matches Some(b) ==> r matches Ok(c) && c.wf()
                    && c.base() == b.0 && c.ports().len() == 0),
    {
        if pci_device.class != CLASS_STORAGE || pci_device.subclass != SUBCLASS_SATA {
            return Err("Not an AHCI SATA controller");
        }
        let base_addr = match pci_device.get_bar(5) {
            Some(bar) => bar.0,
            None => {
                return Err("No AHCI BAR found");
            },
        };
        Ok(AhciController { base_addr, ports: Vec::new() })
    }

    /// Base address of the registers of port `index`.
    pub fn port_base(&self, index: u32) -> (r: u64)
        requires
            self.wf(),
            index < AHCI_MAX_PORTS,
        ensures
            r == self.base() + 0x100 + index * 0x80,
    {
        self.base_addr + 0x100 + (index as u64) * 0x80
    }

    /// Records a probed port when it has a device and there is room.
    pub fn add_port(&mut self, port: AhciPort)
        requires
            old(self).wf(),
        ensures
            final(self).wf(),
            final(self).base() == old(self).base(),
            (port.state != PortState::NoDevice && old(self).ports().len() < AHCI_MAX_PORTS)
                ==> final(self).ports() == old(self).ports().push(port),
            !(port.state != PortState::NoDevice && old(self).ports().len() < AHCI_MAX_PORTS)
                ==> final(self).ports() == old(self).ports(),
    {
        if port.state != PortState::NoDevice && self.ports.len() < AHCI_MAX_PORTS {
            self.ports.push(port);
        }
    }

    /// The recorded port at `index`.
    pub fn get_port(&self, index: usize) -> (r: Option<&AhciPort>)
        ensures
            index < self.ports().len() ==> r == Some(&self.ports()[index as int]),
            index >= self.ports().len() ==> r is None,
    {
        if index < self.ports.len() {
            Some(&self.ports[index])
        } else {
            None
        }
    }

    /// Number of recorded ports.
    pub fn port_count(&self) -> (r: usize)
        ensures
            r == self.ports().len(),
    {
        self.ports.len()
    }

    /// Starts every recorded port.
    pub fn start_ports(&mut self) -> (r: Result<(), &'static str>)
        requires
            old(self).wf(),
        ensures
            final(self).wf(),
            r is Ok,
            final(self).base() == old(self).base(),
            final(self).ports().len() == old(self).ports().len(),
            forall|i: int| 0 <= i < old(self).ports().len() ==> #[trigger] final(self).ports()[i] == (AhciPort {
                command_list: Some(COMMAND_LIST_BASE),
                fis_base: Some(FIS_BASE),
                ..old(self).ports()[i]
            }),
    {
        let mut i: usize = 0;
        while i < self.ports.len()
            invariant
                0 <= i <= self.ports@.len(),
                self.ports@.len() == old(self).ports@.len(),
                self.base_addr == old(self).base_addr,
                forall|k: int| 0 <= k < i ==> #[trigger] self.ports@[k] == (AhciPort {
                    command_list: Some(COMMAND_LIST_BASE),
                    fis_base: Some(FIS_BASE),
                    ..old(self).ports@[k]
                }),
                forall|k: int| i <= k < self.ports@.len() ==> #[trigger] self.ports@[k] == old(self).ports@[k],
            decreases self.ports@.len() - i,
        {
            let mut port = self.ports[i];
            port.start();
            self.ports.set(i, port);
            i = i + 1;
        }
        Ok(())
    }
}

} // verus!
