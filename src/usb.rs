//! USB host controllers and input devices: controller kinds, HID report
//! decoding and the queue of input events.
use vstd::prelude::*;
use crate::pci::{bar_spec, PciDevice};

verus! {

/// Host-controller interface, from the PCI programming interface byte.
#[derive(Debug, Clone, Copy, PartialEq, Eq, Structural)]
pub enum UsbControllerType {
    Uhci,
    Ehci,
    Xhci,
    Unknown,
}

pub open spec fn controller_type_spec(prog_if: u8) -> UsbControllerType {
    if prog_if == 0x00 {
        UsbControllerType::Uhci
    } else if prog_if == 0x20 {
        UsbControllerType::Ehci
    } else if prog_if == 0x30 {
        UsbControllerType::Xhci
    } else {
        UsbControllerType::Unknown
    }
}

/// A USB host controller found on the PCI bus.
#[derive(Debug, Clone, Copy)]
pub struct UsbController {
    pub pci_device: PciDevice,
    pub controller_type: UsbControllerType,
    pub base_addr: u64,
}

impl UsbController {
    /// The controller behind `pci_device`, at the address of its first BAR;
    /// `None` when that BAR is empty.
    pub fn new(pci_device: &PciDevice) -> (r: Option<UsbController>)
        ensures
            bar_spec(pci_device.bars@[0]) is None ==> r is None,
            bar_spec(pci_device.bars@[0]) matches Some(b) ==> r matches Some(c) && c.base_addr == b.0
                && c.controller_type == controller_type_spec(pci_device.prog_if)
                && c.pci_device == *pci_device,
    {
        let controller_type = match pci_device.prog_if {
            0x00 => UsbControllerType::Uhci,
            0x20 => UsbControllerType::Ehci,
            0x30 => UsbControllerType::Xhci,
            _ => UsbControllerType::Unknown,
        };
        let base_addr = match pci_device.get_bar(0) {
            Some(bar) => bar.0,
            None => {
                return None;
            },
        };
        Some(UsbController { pci_device: *pci_device, controller_type, base_addr })
    }
}

/// Kind of input device.
#[derive(Debug, Clone, Copy, PartialEq, Eq, Structural)]
pub enum UsbInputType {
    Keyboard,
    Mouse,
    Unknown,
}

/// The input-device kind that a device descriptor's interface class names.
pub fn input_type_for_class(interface_class: u8) -> (r: UsbInputType)
    ensures
        interface_class == 0x03 ==> r == UsbInputType::Keyboard,
        interface_class == 0x01 ==> r == UsbInputType::Mouse,
        interface_class != 0x03 && interface_class != 0x01 ==> r == UsbInputType::Unknown,
{
    match interface_class {
        0x03 => UsbInputType::Keyboard,
        0x01 => UsbInputType::Mouse,
        _ => UsbInputType::Unknown,
    }
}

/// An input device attached to a controller.
#[derive(Debug, Clone, Copy)]
pub struct UsbInputDevice {
    pub controller: UsbController,
    pub input_type: UsbInputType,
    pub address: u8,
}

impl UsbInputDevice {
    pub fn new(controller: UsbController, input_type: UsbInputType, address: u8) -> (r: UsbInputDevice)
        ensures
            r.controller == controller,
            r.input_type == input_type,
            r.address == address,
    {
        UsbInputDevice { controller, input_type, address }
    }
}

/// An event from an input device.
#[derive(Debug, Clone, Copy, PartialEq, Eq, Structural)]
pub enum InputEvent {
    KeyPress(u8),
    MouseMove { x: i8, y: i8, buttons: u8 },
}

/// The event of a keyboard report: the key code in byte 2, none for 0.
pub fn parse_keyboard_report(report: &[u8; 8]) -> (r: Option<InputEvent>)
    ensures
        report@[2] == 0 ==> r is None,
        report@[2] != 0 ==> r == Some(InputEvent::KeyPress(report@[2])),
{
    let keycode = report[2];
    if keycode != 0 {
        Some(InputEvent::KeyPress(keycode))
    } else {
        None
    }
}

/// The event of a mouse report: buttons in byte 0, signed motion in bytes
/// 1 and 2.
pub fn parse_mouse_report(report: &[u8; 8]) -> (r: InputEvent)
    ensures
        r == (InputEvent::MouseMove { x: report@[1] as i8, y: report@[2] as i8, buttons: report@[0] }),
{
    InputEvent::MouseMove { x: report[1] as i8, y: report[2] as i8, buttons: report[0] }
}

/// Slots of the input-event ring.
pub const INPUT_QUEUE_SLOTS: usize = 32;

/// Slot of the `k`-th event of a ring whose oldest event is at `head`.
pub open spec fn ring_index(head: int, k: int) -> int {
    if head + k < INPUT_QUEUE_SLOTS {
        head + k
    } else {
        head + k - INPUT_QUEUE_SLOTS
    }
}

/// Ring buffer of input events. It holds at most `INPUT_QUEUE_SLOTS - 1`
/// events: pushing one more makes the tail meet the head, and the ring then
/// reads as empty.
pub struct InputEventQueue {
    slots: Vec<Option<InputEvent>>,
    head: usize,
    tail: usize,
}

impl View for InputEventQueue {
    type V = Seq<InputEvent>;

    /// The events waiting, oldest first.
    closed spec fn view(&self) -> Seq<InputEvent> {
        let n = if self.tail >= self.head { self.tail - self.head } else { self.tail + INPUT_QUEUE_SLOTS - self.head };
        Seq::new(n as nat, |k: int| self.slots@[ring_index(self.head as int, k)]->0)
    }
}

impl InputEventQueue {
    pub closed spec fn wf(&self) -> bool {
        &&& self.slots@.len() == INPUT_QUEUE_SLOTS
        &&& self.head < INPUT_QUEUE_SLOTS
        &&& self.tail < INPUT_QUEUE_SLOTS
        &&& forall|k: int| 0 <= k < self@.len() ==> (#[trigger] self.slots@[ring_index(self.head as int, k)]) is Some
    }

    pub fn new() -> (r: InputEventQueue)
        ensures
            r.wf(),
            r@.len() == 0,
    {
        InputEventQueue { slots: vec![None; INPUT_QUEUE_SLOTS], head: 0, tail: 0 }
    }

    /// Appends `event`. On a ring that already holds
    /// `INPUT_QUEUE_SLOTS - 1` events the tail catches up with the head and
    /// the ring reads as empty: those events are lost.
    pub fn push_event(&mut self, event: InputEvent)
        requires
            old(self).wf(),
        ensures
            final(self).wf(),
            old(self)@.len() < INPUT_QUEUE_SLOTS - 1 ==> final(self)@ == old(self)@.push(event),
            old(self)@.len() >= INPUT_QUEUE_SLOTS - 1 ==> final(self)@.len() == 0,
    {
        let t = self.tail;
        self.slots.set(t, Some(event));
        self.tail = if t + 1 < INPUT_QUEUE_SLOTS { t + 1 } else { 0 };
        proof {
            if old(self)@.len() < INPUT_QUEUE_SLOTS - 1 {
                assert(self@ =~= old(self)@.push(event));
            }
        }
        assert forall|k: int| 0 <= k < self@.len() implies (#[trigger] self.slots@[ring_index(self.head as int, k)]) is Some by {
            let i = ring_index(self.head as int, k);
            if i != t {
                assert(self.slots@[i] == old(self).slots@[i]);
            }
        }
    }

    /// Takes the oldest event.
    pub fn pop_event(&mut self) -> (r: Option<InputEvent>)
        requires
            old(self).wf(),
        ensures
            final(self).wf(),
            old(self)@.len() == 0 ==> r is None && final(self)@ == old(self)@,
            old(self)@.len() > 0 ==> r == Some(old(self)@[0]) && final(self)@ == old(self)@.drop_first(),
    {
        if self.head != self.tail {
            let h = self.head;
            let event = self.slots[h];
            assert(self@[0] == event->0);
            self.slots.set(h, None);
            self.head = if h + 1 < INPUT_QUEUE_SLOTS { h + 1 } else { 0 };
            assert(self@ =~= old(self)@.drop_first());
            assert forall|k: int| 0 <= k < self@.len() implies (#[trigger] self.slots@[ring_index(self.head as int, k)]) is Some by {
                assert(old(self).slots@[ring_index(h as int, k + 1)] is Some);
            }
            event
        } else {
            None
        }
    }
}

} // verus!
