//! Intel E1000 network controllers: device check, MAC address, receive
//! address registers and the transmit and receive descriptor rings. The
//! memory-mapped register accesses and DMA addresses are handled outside the
//! library.
use vstd::prelude::*;
use crate::pci::{bar_spec, PciDevice};

verus! {

/// Class code of network controllers.
pub const CLASS_NETWORK: u8 = 0x02;

/// Subclass code of Ethernet controllers.
pub const SUBCLASS_ETHERNET: u8 = 0x00;

/// Largest Ethernet frame, in bytes.
pub const FRAME_SIZE: usize = 1518;

/// Descriptors in each ring.
pub const RING_SIZE: usize = 32;

/// Receive-control value: receiver on, store bad packets, unicast promiscuous.
pub const RCTL_VALUE: u32 = 0x1A;

/// Transmit-control value: transmitter on, pad short packets.
pub const TCTL_VALUE: u32 = 0x0A;

/// Interrupt causes enabled: link status change, receive overrun, receive
/// descriptor minimum threshold.
pub const IMS_VALUE: u32 = 0xD0;

/// Interrupt cause: receive descriptors below the minimum threshold.
pub const ICR_RXDMT0: u32 = 0x40;

/// Interrupt cause: link status changed.
pub const ICR_LSC: u32 = 0x80;

/// The MAC address stored in the first three EEPROM words, low byte first.
pub open spec fn mac_spec(words: [u16; 3]) -> Seq<u8> {
    seq![
        (words@[0] & 0xFF) as u8, ((words@[0] >> 8u16) & 0xFF) as u8,
        (words@[1] & 0xFF) as u8, ((words@[1] >> 8u16) & 0xFF) as u8,
        (words@[2] & 0xFF) as u8, ((words@[2] >> 8u16) & 0xFF) as u8,
    ]
}

/// The EEPROM-read register value that starts reading word `address`.
pub fn eeprom_request(address: u32) -> (r: u32)
    requires
        address < 0x0100_0000,
    ensures
        r == address * 256 + 1,
{
    assert((address << 8u32) | 1u32 == address * 256 + 1) by (bit_vector)
        requires
            address < 0x0100_0000u32,
    ;
    (address << 8) | 1
}

/// The word that a finished EEPROM read returns: `None` while the done bit
/// (4) is clear.
pub fn eeprom_result(eerd: u32) -> (r: Option<u16>)
    ensures
        eerd & 0x10 == 0 ==> r is None,
        eerd & 0x10 != 0 ==> r == Some((eerd >> 16u32) as u16),
{
    if eerd & 0x10 != 0 {
        Some((eerd >> 16) as u16)
    } else {
        None
    }
}

/// What an interrupt with cause register `icr` calls for: draining the
/// receive ring, and reporting a link change.
pub fn interrupt_actions(icr: u32) -> (r: (bool, bool))
    ensures
        r == (icr & ICR_RXDMT0 != 0, icr & ICR_LSC != 0),
{
    (icr & ICR_RXDMT0 != 0, icr & ICR_LSC != 0)
}

/// An E1000 controller: its registers, MAC address and ring positions.
pub struct E1000Controller {
    base_addr: u64,
    mac_addr: [u8; 6],
    tx_lengths: Vec<u16>,
    rx_cur: usize,
    tx_cur: usize,
}

impl E1000Controller {
    pub closed spec fn base(&self) -> u64 {
        self.base_addr
    }

    pub closed spec fn mac(&self) -> Seq<u8> {
        self.mac_addr@
    }

    pub closed spec fn tx_cur_spec(&self) -> nat {
        self.tx_cur as nat
    }

    pub closed spec fn rx_cur_spec(&self) -> nat {
        self.rx_cur as nat
    }

    /// The frame lengths queued in the transmit descriptors.
    pub closed spec fn tx_lengths_spec(&self) -> Seq<u16> {
        self.tx_lengths@
    }

    pub open spec fn wf(&self) -> bool {
        &&& self.tx_cur_spec() < RING_SIZE
        &&& self.rx_cur_spec() < RING_SIZE
        &&& self.tx_lengths_spec().len() == RING_SIZE
    }

    /// The controller behind `pci_device`, its registers at BAR 0, with
    /// empty rings and a zero MAC address until the EEPROM is read.
    pub fn new(pci_device: &PciDevice) -> (r: Result<E1000Controller, &'static str>)
        ensures
            (pci_device.class != CLASS_NETWORK || pci_device.subclass != SUBCLASS_ETHERNET)
                ==> r == Err::<E1000Controller, &'static str>("Not an Ethernet controller"),
            pci_device.class == CLASS_NETWORK && pci_device.subclass == SUBCLASS_ETHERNET
                && bar_spec(pci_device.bars@[0]) is None
                ==> r == Err::<E1000Controller, &'static str>("No Ethernet BAR found"),
            pci_device.class == CLASS_NETWORK && pci_device.subclass == SUBCLASS_ETHERNET
                ==> (bar_spec(pci_device.bars@[0]) matches Some(b) ==> r matches Ok(c) && c.wf()
                    && c.base() == b.0 && c.mac() == seq![0u8, 0, 0, 0, 0, 0]
                    && c.tx_cur_spec() == 0 && c.rx_cur_spec() == 0),
    {
        if pci_device.class != CLASS_NETWORK || pci_device.subclass != SUBCLASS_ETHERNET {
            return Err("Not an Ethernet controller");
        }
        let base_addr = match pci_device.get_bar(0) {
            Some(bar) => bar.0,
            None => {
                return Err("No Ethernet BAR found");
            },
        };
        let c = E1000Controller {
            base_addr,
            mac_addr: [0u8; 6],
            tx_lengths: vec![0u16; RING_SIZE],
            rx_cur: 0,
            tx_cur: 0,
        };
        assert(c.mac_addr@ =~= seq![0u8, 0, 0, 0, 0, 0]);
        Ok(c)
    }

    /// Records the MAC address read from the first three EEPROM words.
    pub fn set_mac_from_eeprom(&mut self, words: [u16; 3])
        requires
            old(self).wf(),
        ensures
            final(self).wf(),
            final(self).mac() == mac_spec(words),
            final(self).base() == old(self).base(),
            final(self).tx_cur_spec() == old(self).tx_cur_spec(),
            final(self).rx_cur_spec() == old(self).rx_cur_spec(),
            final(self).tx_lengths_spec() == old(self).tx_lengths_spec(),
    {
        let mut i: usize = 0;
        while i < 3
            invariant
                0 <= i <= 3,
                forall|k: int| 0 <= k < 2 * i ==> #[trigger] self.mac_addr@[k] == mac_spec(words)[k],
                self.base_addr == old(self).base_addr,
                self.tx_cur == old(self).tx_cur,
                self.rx_cur == old(self).rx_cur,
                self.tx_lengths == old(self).tx_lengths,
            decreases 3 - i,
        {
            let word = words[i];
            self.mac_addr[i * 2] = (word & 0xFF) as u8;
            self.mac_addr[i * 2 + 1] = ((word >> 8) & 0xFF) as u8;
            i = i + 1;
        }
        assert(self.mac_addr@ =~= mac_spec(words));
    }

    /// The MAC address.
    pub fn mac_address(&self) -> (r: &[u8; 6])
        ensures
            r@ == self.mac(),
    {
        &self.mac_addr
    }

    /// Receive-address low and high register values for the MAC address,
    /// the high one with its address-valid bit (31) set.
    pub fn receive_address_registers(&self) -> (r: (u32, u32))
        ensures
            r.0 == self.mac()[0] as u32 + self.mac()[1] as u32 * 0x100 + self.mac()[2] as u32 * 0x1_0000
                + self.mac()[3] as u32 * 0x100_0000,
            r.1 == self.mac()[4] as u32 + self.mac()[5] as u32 * 0x100 + 0x8000_0000,
    {
        let m = &self.mac_addr;
        let (m0, m1, m2, m3, m4, m5) = (m[0] as u32, m[1] as u32, m[2] as u32, m[3] as u32, m[4] as u32, m[5] as u32);
        assert(m0 | (m1 << 8u32) | (m2 << 16u32) | (m3 << 24u32) == m0 + m1 * 0x100 + m2 * 0x1_0000 + m3 * 0x100_0000) by (bit_vector)
            requires
                m0 < 256,
                m1 < 256,
                m2 < 256,
                m3 < 256,
        ;
        assert(m4 | (m5 << 8u32) | 0x8000_0000u32 == m4 + m5 * 0x100 + 0x8000_0000) by (bit_vector)
            requires
                m4 < 256,
                m5 < 256,
        ;
        (m0 | (m1 << 8) | (m2 << 16) | (m3 << 24), m4 | (m5 << 8) | 0x8000_0000u32)
    }

    /// Queues a frame of `len` bytes in the next transmit descriptor and
    /// returns the index of that descriptor and the new tail to write to the
    /// transmit-tail register. Frames over `FRAME_SIZE` bytes are refused.
    pub fn send_frame(&mut self, len: usize) -> (r: Result<(usize, usize), &'static str>)
        requires
            old(self).wf(),
        ensures
            final(self).wf(),
            len > FRAME_SIZE ==> r == Err::<(usize, usize), &'static str>("Frame too large") && *final(self) == *old(self),
            len <= FRAME_SIZE ==> {
                let i = old(self).tx_cur_spec();
                let next = if i + 1 < RING_SIZE { i + 1 } else { 0 };
                &&& r == Ok::<(usize, usize), &'static str>((i as usize, next as usize))
                &&& final(self).tx_cur_spec() == next
                &&& final(self).tx_lengths_spec() == old(self).tx_lengths_spec().update(i as int, len as u16)
                &&& final(self).rx_cur_spec() == old(self).rx_cur_spec()
                &&& final(self).mac() == old(self).mac()
            },
    {
        if len > FRAME_SIZE {
            return Err("Frame too large");
        }
        let idx = self.tx_cur;
        self.tx_lengths.set(idx, len as u16);
        self.tx_cur = if idx + 1 < RING_SIZE { idx + 1 } else { 0 };
        Ok((idx, self.tx_cur))
    }

    /// Takes the next receive descriptor once the hardware has marked it
    /// done (status bit 0): returns its index and the new tail for the
    /// receive-tail register, the slot before the next one. `None` while
    /// the descriptor is not done.
    pub fn receive_frame(&mut self, status: u8) -> (r: Option<(usize, usize)>)
        requires
            old(self).wf(),
        ensures
            final(self).wf(),
            status & 1 == 0 ==> r is None && *final(self) == *old(self),
            status & 1 != 0 ==> {
                let i = old(self).rx_cur_spec();
                let next = if i + 1 < RING_SIZE { i + 1 } else { 0 };
                &&& r == Some((i as usize, i as usize))
                &&& final(self).rx_cur_spec() == next
                &&& final(self).tx_cur_spec() == old(self).tx_cur_spec()
                &&& final(self).tx_lengths_spec() == old(self).tx_lengths_spec()
                &&& final(self).mac() == old(self).mac()
            },
    {
        if status & 1 == 0 {
            return None;
        }
        let idx = self.rx_cur;
        self.rx_cur = if idx + 1 < RING_SIZE { idx + 1 } else { 0 };
        Some((idx, idx))
    }

    /// Index of the receive descriptor to look at next.
    pub fn rx_index(&self) -> (r: usize)
        ensures
            r == self.rx_cur_spec(),
    {
        self.rx_cur
    }
}

} // verus!
