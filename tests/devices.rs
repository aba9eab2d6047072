use kernel_core::ethernet::{eeprom_request, eeprom_result, interrupt_actions, E1000Controller, CLASS_NETWORK, SUBCLASS_ETHERNET};
use kernel_core::ahci::{AhciController, AhciPort, PortState, CLASS_STORAGE, SATA_SIGNATURE, SUBCLASS_SATA};
use kernel_core::ai_models::{AIModel, ModelManager};
use kernel_core::apic::{AdvancedPic, IoApic, LocalApic, MsiCapability};
use kernel_core::pci::{
    config_address, config_word, merge_config_word, with_bus_mastering, with_io_space,
    with_memory_space, PciDevice, PciScanner, CLASS_SERIAL_BUS, SUBCLASS_USB,
};
use kernel_core::usb::{
    input_type_for_class, parse_keyboard_report, parse_mouse_report, InputEvent, InputEventQueue,
    UsbController, UsbControllerType, UsbInputDevice, UsbInputType,
};

fn device(vendor: u16, class: u8, subclass: u8, prog_if: u8, bar0: u32) -> PciDevice {
    PciDevice {
        bus: 0,
        device: 1,
        function: 0,
        vendor_id: vendor,
        device_id: 0x100e,
        class,
        subclass,
        prog_if,
        revision: 0,
        header_type: 0x80,
        bars: [bar0, 0, 0, 0, 0xc001, 0],
        interrupt_line: 11,
        interrupt_pin: 1,
    }
}

#[test]
fn pci_device_fields() {
    let d = device(0x8086, 0x02, 0x00, 0, 0xfebc_0008);
    assert!(d.is_present());
    assert!(d.is_multifunction());
    assert_eq!(d.get_bar(0), Some((0xfebc_0000, 4096)));
    assert_eq!(d.get_bar(4), Some((0xc000, 256)));
    assert_eq!(d.get_bar(1), None);
    assert_eq!(d.get_bar(6), None);
    assert!(!device(0xFFFF, 0, 0, 0, 0).is_present());
}

#[test]
fn pci_config_values() {
    assert_eq!(config_address(1, 2, 3, 0x13), 0x8001_1310);
    assert_eq!(merge_config_word(0x1234_5678, 0x06, 0xabcd), 0xabcd_5678);
    assert_eq!(merge_config_word(0x1234_5678, 0x04, 0xabcd), 0x1234_abcd);
    assert_eq!(config_word(0x1234_5678, 0x02), 0x1234);
    assert_eq!(config_word(0x1234_5678, 0x00), 0x5678);
    assert_eq!(with_bus_mastering(0x0001), 0x0005);
    assert_eq!(with_memory_space(0x0000), 0x0002);
    assert_eq!(with_io_space(0x0002), 0x0003);
}

#[test]
fn pci_scanner_filters_in_order() {
    let mut s = PciScanner::new();
    s.add_device(device(0x8086, 0x02, 0x00, 0, 0x1000));
    s.add_device(device(0x1234, CLASS_SERIAL_BUS, SUBCLASS_USB, 0x30, 0x2000));
    s.add_device(device(0x8086, CLASS_SERIAL_BUS, SUBCLASS_USB, 0x20, 0x3000));
    assert_eq!(s.device_count(), 3);
    assert_eq!(s.get_device(1).unwrap().vendor_id, 0x1234);
    assert!(s.get_device(3).is_none());
    let usb = s.find_devices(CLASS_SERIAL_BUS, SUBCLASS_USB);
    assert_eq!(usb.len(), 2);
    assert_eq!(usb[0].prog_if, 0x30);
    assert_eq!(usb[1].prog_if, 0x20);
    let intel = s.find_devices_by_id(0x8086, 0x100e);
    assert_eq!(intel.len(), 2);
    for _ in 0..300 {
        s.add_device(device(1, 1, 1, 1, 1));
    }
    assert_eq!(s.device_count(), 256);
}

#[test]
fn usb_controllers_and_reports() {
    let c = UsbController::new(&device(1, CLASS_SERIAL_BUS, SUBCLASS_USB, 0x30, 0xfe00_0000)).unwrap();
    assert_eq!(c.controller_type, UsbControllerType::Xhci);
    assert_eq!(c.base_addr, 0xfe00_0000);
    assert_eq!(UsbController::new(&device(1, 0x0c, 3, 0x20, 0x10)).unwrap().controller_type, UsbControllerType::Ehci);
    assert_eq!(UsbController::new(&device(1, 0x0c, 3, 0x00, 0x10)).unwrap().controller_type, UsbControllerType::Uhci);
    assert_eq!(UsbController::new(&device(1, 0x0c, 3, 0x99, 0x10)).unwrap().controller_type, UsbControllerType::Unknown);
    assert!(UsbController::new(&device(1, 0x0c, 3, 0x30, 0)).is_none());
    let dev = UsbInputDevice::new(c, input_type_for_class(0x03), 1);
    assert_eq!(dev.input_type, UsbInputType::Keyboard);
    assert_eq!(input_type_for_class(0x01), UsbInputType::Mouse);
    assert_eq!(input_type_for_class(0x07), UsbInputType::Unknown);
    assert_eq!(parse_keyboard_report(&[0, 0, 4, 0, 0, 0, 0, 0]), Some(InputEvent::KeyPress(4)));
    assert_eq!(parse_keyboard_report(&[0; 8]), None);
    assert_eq!(
        parse_mouse_report(&[1, 0xff, 5, 0, 0, 0, 0, 0]),
        InputEvent::MouseMove { x: -1, y: 5, buttons: 1 }
    );
}

#[test]
fn input_queue_is_fifo_and_overflows_like_a_ring() {
    let mut q = InputEventQueue::new();
    assert_eq!(q.pop_event(), None);
    q.push_event(InputEvent::KeyPress(1));
    q.push_event(InputEvent::KeyPress(2));
    assert_eq!(q.pop_event(), Some(InputEvent::KeyPress(1)));
    assert_eq!(q.pop_event(), Some(InputEvent::KeyPress(2)));
    assert_eq!(q.pop_event(), None);
    for i in 0..31u8 {
        q.push_event(InputEvent::KeyPress(i));
    }
    assert_eq!(q.pop_event(), Some(InputEvent::KeyPress(0)));
    q.push_event(InputEvent::KeyPress(99));
    q.push_event(InputEvent::KeyPress(100));
    assert_eq!(q.pop_event(), None);
}

#[test]
fn apic_values() {
    assert_eq!(LocalApic::from_base_register(0xfee0_0900), Some(LocalApic { base_addr: 0xfee0_0000 }));
    assert_eq!(LocalApic::from_base_register(0xfee0_0100), None);
    let io = IoApic::from_registers(0xfec0_0000, 0x0200_0000, 0x0017_0011);
    assert_eq!(io.id, 2);
    assert_eq!(io.max_entries(), 24);
    assert_eq!(io.redirection_entry(1, 0x21, 3, true, true), Some((0x21 | 0x8000 | 0x2000, 3 << 24)));
    assert_eq!(io.redirection_entry(24, 0x21, 3, false, false), None);
    assert_eq!(IoApic::redirection_register(2), 0x14);
    assert_eq!(IoApic::masked(0x21, true), 0x1_0021);
    assert_eq!(IoApic::masked(0x1_0021, false), 0x21);
    let msi = MsiCapability { message_address: 0, message_data: 0 };
    assert_eq!(msi.configure(0x40, 2, true, true), (0xfee0_2000, 0x40));
    assert_eq!(msi.configure(0x40, 2, false, false), (0xfee0_2000, 0x40 | 0x4000 | 0x8000));
    let mut pic = AdvancedPic::new(LocalApic { base_addr: 0xfee0_0000 });
    assert_eq!(pic.setup_interrupt(1, 0x21, 0), None);
    pic.add_ioapic(io);
    assert_eq!(pic.setup_interrupt(1, 0x21, 0), Some((0xfec0_0000, 1, 0x21, 0)));
    assert!(pic.notify_end_of_interrupt(32));
    assert!(!pic.notify_end_of_interrupt(3));
    pic.lapic_mut().base_addr = 0x1000;
    assert_eq!(pic.lapic().base_addr, 0x1000);
}

struct Echo(&'static str);

impl AIModel for Echo {
    fn process(&self, _input: &str) -> String {
        self.0.to_string()
    }
}

#[test]
fn model_registry_orders_and_replaces() {
    let mut m: ModelManager<Echo> = ModelManager::new();
    m.register_model("tfidf".to_string(), "2".to_string(), Echo("b"));
    m.register_model("classifier".to_string(), "1".to_string(), Echo("a"));
    m.register_model("tfidf".to_string(), "10".to_string(), Echo("c"));
    assert_eq!(m.list_models(), vec!["classifier:1".to_string(), "tfidf:10".to_string(), "tfidf:2".to_string()]);
    m.register_model("tfidf".to_string(), "2".to_string(), Echo("d"));
    assert_eq!(m.list_models().len(), 3);
    assert_eq!(m.get_model("tfidf", "2").unwrap().process("x"), "d");
    assert!(m.get_model("tfidf", "3").is_none());
    assert!(m.get_model("tfidf:2", "").is_none());
}

#[test]
fn ahci_ports() {
    let sata = device(0x8086, CLASS_STORAGE, SUBCLASS_SATA, 1, 0);
    assert!(AhciController::new(&sata).is_err());
    let mut with_bar = sata;
    with_bar.bars[5] = 0xfebf_1000;
    let mut c = AhciController::new(&with_bar).unwrap();
    assert!(AhciController::new(&device(0x8086, 0x02, 0x00, 0, 0)).is_err());
    assert_eq!(c.port_base(2), 0xfebf_1000 + 0x100 + 2 * 0x80);
    let mut p = AhciPort::new(c.port_base(0));
    p.probe(0x0123, SATA_SIGNATURE);
    assert_eq!(p.state, PortState::Active);
    p.probe(0x0123, 0xEB14_0101);
    assert_eq!(p.state, PortState::Present);
    p.probe(0x0000, SATA_SIGNATURE);
    assert_eq!(p.state, PortState::NoDevice);
    c.add_port(p);
    assert_eq!(c.port_count(), 0);
    p.probe(0x0113, SATA_SIGNATURE);
    c.add_port(p);
    assert_eq!(c.port_count(), 1);
    assert_eq!(c.start_ports(), Ok(()));
    let started = c.get_port(0).unwrap();
    assert_eq!(started.command_list, Some(0x10_0000));
    assert_eq!(started.fis_base, Some(0x10_1000));
    assert!(c.get_port(1).is_none());
    let mut buf = [0u8; 512];
    assert!(started.read_sectors(0, 1, &mut buf).is_err());
    assert!(started.write_sectors(0, 1, &buf).is_err());
}

#[test]
fn e1000_logic() {
    assert!(E1000Controller::new(&device(0x8086, 0x01, 0x06, 0, 0x1000)).is_err());
    assert_eq!(E1000Controller::new(&device(0x8086, CLASS_NETWORK, SUBCLASS_ETHERNET, 0, 0)).err(), Some("No Ethernet BAR found"));
    let mut c = E1000Controller::new(&device(0x8086, CLASS_NETWORK, SUBCLASS_ETHERNET, 0, 0xfebc_0000)).unwrap();
    assert_eq!(c.mac_address(), &[0u8; 6]);
    c.set_mac_from_eeprom([0x5452, 0x1200, 0x5634]);
    assert_eq!(c.mac_address(), &[0x52, 0x54, 0x00, 0x12, 0x34, 0x56]);
    assert_eq!(c.receive_address_registers(), (0x1200_5452, 0x8000_5634));
    assert_eq!(eeprom_request(2), 0x201);
    assert_eq!(eeprom_result(0x1234_0010), Some(0x1234));
    assert_eq!(eeprom_result(0x1234_0000), None);
    assert_eq!(interrupt_actions(0xC0), (true, true));
    assert_eq!(interrupt_actions(0x04), (false, false));
    assert_eq!(c.send_frame(2000), Err("Frame too large"));
    for i in 0..31 {
        assert_eq!(c.send_frame(60), Ok((i, i + 1)));
    }
    assert_eq!(c.send_frame(60), Ok((31, 0)));
    assert_eq!(c.receive_frame(0), None);
    assert_eq!(c.receive_frame(1), Some((0, 0)));
    assert_eq!(c.rx_index(), 1);
}
