use sikios::device_info::{
    Bridge, MassStorageController, PCIClassCode, SerialBusController, USBController,
};
use sikios::pci::{ConfigSpace, PCIConfiguration, PCIScanError, PCI};

/// Make the named function present with the given IDs and class fields.
fn add_function(
    space: &mut ConfigSpace,
    bus: u8,
    device: u8,
    function: u8,
    vendor_id: u16,
    device_id: u16,
    base_class: u8,
    sub_class: u8,
    interface: u8,
    multi_function: bool,
) {
    let w0 = (device_id as u32) << 16 | vendor_id as u32;
    let w2 = (base_class as u32) << 24 | (sub_class as u32) << 16 | (interface as u32) << 8;
    let header_type: u32 = if multi_function { 0x80 } else { 0x00 };
    let w3 = header_type << 16;
    space.set_word(bus, device, function, 0, w0);
    space.set_word(bus, device, function, 2, w2);
    space.set_word(bus, device, function, 3, w3);
}

fn recorded(pci: &PCI) -> Vec<(u8, u8, u8)> {
    pci.devices.iter().map(|d| (d.bus, d.device, d.function)).collect()
}

#[test]
fn empty_bus_yields_no_records() {
    let space = ConfigSpace::new();
    let mut pci = PCI::new();
    pci.scan_bus(&space, 5).unwrap();
    assert_eq!(pci.devices.len(), 0);
    assert_eq!(pci.device_index, 0);
}

#[test]
fn multi_function_device_probes_functions() {
    let mut space = ConfigSpace::new();
    add_function(&mut space, 0, 3, 0, 0x8086, 0x1234, 0x02, 0x00, 0x00, true);
    add_function(&mut space, 0, 3, 2, 0x8086, 0x1235, 0x02, 0x00, 0x00, false);
    add_function(&mut space, 0, 3, 5, 0x8086, 0x1236, 0x02, 0x00, 0x00, false);
    let mut pci = PCI::new();
    pci.scan_device(&space, 0, 3).unwrap();
    // function 0 plus exactly the present higher functions; 1, 3, 4, 6, 7
    // read the absent sentinel and are skipped.
    assert_eq!(recorded(&pci), vec![(0, 3, 0), (0, 3, 2), (0, 3, 5)]);
}

#[test]
fn single_function_device_stops_at_function_0() {
    let mut space = ConfigSpace::new();
    add_function(&mut space, 0, 3, 0, 0x8086, 0x1234, 0x02, 0x00, 0x00, false);
    // this function would be recorded only if functions 1-7 were probed.
    add_function(&mut space, 0, 3, 2, 0x8086, 0x1235, 0x02, 0x00, 0x00, false);
    let mut pci = PCI::new();
    pci.scan_device(&space, 0, 3).unwrap();
    assert_eq!(recorded(&pci), vec![(0, 3, 0)]);
}

#[test]
fn scan_all_bus_single_function_host() {
    let mut space = ConfigSpace::new();
    add_function(&mut space, 0, 0, 0, 0x8086, 0x0001, 0x06, 0x00, 0x00, false);
    add_function(&mut space, 0, 4, 0, 0x10de, 0x2000, 0x03, 0x00, 0x00, false);
    // a device on bus 2 is unreachable: only bus 0 is scanned.
    add_function(&mut space, 2, 1, 0, 0x10de, 0x2001, 0x03, 0x00, 0x00, false);
    let mut pci = PCI::new();
    pci.initialize(&space).unwrap();
    assert_eq!(recorded(&pci), vec![(0, 0, 0), (0, 4, 0)]);
}

#[test]
fn scan_all_bus_multi_function_host() {
    let mut space = ConfigSpace::new();
    add_function(&mut space, 0, 0, 0, 0x8086, 0x0001, 0x06, 0x00, 0x00, true);
    add_function(&mut space, 0, 0, 2, 0x8086, 0x0002, 0x06, 0x00, 0x00, false);
    add_function(&mut space, 0, 5, 0, 0x10de, 0x2000, 0x03, 0x00, 0x00, false);
    add_function(&mut space, 2, 1, 0, 0x10de, 0x2001, 0x03, 0x00, 0x00, false);
    let mut pci = PCI::new();
    pci.scan_all_bus(&space).unwrap();
    // host functions 0 and 2 are present, so buses 0 and 2 are scanned; on
    // bus 0 the host bridge itself is multi-function, so its function 2 is
    // recorded as well.
    assert_eq!(recorded(&pci), vec![(0, 0, 0), (0, 0, 2), (0, 5, 0), (2, 1, 0)]);
}

#[test]
fn bridge_recursion_scans_secondary_bus() {
    let mut space = ConfigSpace::new();
    add_function(&mut space, 0, 2, 0, 0x8086, 0x0a0a, 0x06, 0x04, 0x00, false);
    // the secondary bus number sits in bits 8-15 of base-address register 2.
    space.set_word(0, 2, 0, 6, 7 << 8);
    add_function(&mut space, 7, 9, 0, 0x1022, 0x0b0b, 0x01, 0x06, 0x00, false);
    let mut pci = PCI::new();
    pci.scan_bus(&space, 0).unwrap();
    assert_eq!(recorded(&pci), vec![(0, 2, 0), (7, 9, 0)]);
    assert!(matches!(
        pci.devices[0].device_type.pci_code_class,
        PCIClassCode::Bridge(Bridge::PCItoPCIBridge1)
    ));
}

fn zeroed_config() -> PCIConfiguration {
    PCIConfiguration {
        vendor_id: 0,
        device_id: 0,
        command: 0,
        status: 0,
        revision_id: 0,
        interface: 0,
        sub_class: 0,
        base_class: 0,
        chacheline_size: 0,
        latency_timer: 0,
        header_type: 0,
        bist: 0,
        base_address_register0: 0,
        base_address_register1: 0,
        base_address_register2: 0,
        base_address_register3: 0,
        base_address_register4: 0,
        base_address_register5: 0,
        cardbus_cis_pointer: 0,
        subsystem_vendor_id: 0,
        subsystem_id: 0,
        expansion_rom_base_address: 0,
        capabilities_pointer: 0,
        interrupt_line: 0,
        interrupt_pin: 0,
        min_gnt: 0,
        max_lat: 0,
    }
}

#[test]
fn classification_of_known_and_unknown_codes() {
    let mut config = zeroed_config();
    config.base_class = 0x0c;
    config.sub_class = 0x03;
    config.interface = 0x30;
    assert_eq!(
        config.return_device_type().pci_code_class,
        PCIClassCode::SerialBusController(SerialBusController::USBController(
            USBController::XHCIController
        ))
    );
    config.base_class = 0x01;
    config.sub_class = 0x06;
    config.interface = 0x00;
    assert_eq!(
        config.return_device_type().pci_code_class,
        PCIClassCode::MassStorageController(MassStorageController::SerialATAController)
    );
    config.base_class = 0x42;
    assert_eq!(
        config.return_device_type().pci_code_class,
        PCIClassCode::Unknown(0x42, 0x06, 0x00)
    );
    config.base_class = 0x12;
    assert_eq!(
        config.return_device_type().pci_code_class,
        PCIClassCode::ProcessingAccelerator
    );
}

#[test]
fn header_fields_are_extracted_from_their_words() {
    let mut space = ConfigSpace::new();
    space.set_word(1, 2, 3, 0, 0xdead_beef);
    space.set_word(1, 2, 3, 1, 0x0123_4567);
    space.set_word(1, 2, 3, 2, 0x0106_0130);
    space.set_word(1, 2, 3, 3, 0x0080_1110);
    space.set_word(1, 2, 3, 6, 0x0000_4200);
    space.set_word(1, 2, 3, 15, 0x4433_2211);
    let pci = PCI::new();
    let config = pci.read_pci_configration(&space, 1, 2, 3);
    assert_eq!(config.vendor_id, 0xbeef);
    assert_eq!(config.device_id, 0xdead);
    assert_eq!(config.command, 0x4567);
    assert_eq!(config.status, 0x0123);
    assert_eq!(config.revision_id, 0x30);
    assert_eq!(config.interface, 0x01);
    assert_eq!(config.sub_class, 0x06);
    assert_eq!(config.base_class, 0x01);
    assert_eq!(config.chacheline_size, 0x10);
    assert_eq!(config.latency_timer, 0x11);
    assert_eq!(config.header_type, 0x80);
    assert_eq!(config.bist, 0x00);
    assert_eq!(config.base_address_register2, 0x0000_4200);
    assert_eq!(config.interrupt_line, 0x11);
    assert_eq!(config.interrupt_pin, 0x22);
    assert_eq!(config.min_gnt, 0x33);
    assert_eq!(config.max_lat, 0x44);
    assert!(!config.is_single_function_device());
}

#[test]
fn config_address_layout() {
    assert_eq!(PCI::config_address(1, 2, 3, 0x07), 0x8001_1304);
    assert_eq!(PCI::config_address(0, 0, 0, 0x00), 0x8000_0000);
    assert_eq!(PCI::config_address(0xff, 31, 7, 0xfc), 0x80ff_fffc);
}

#[test]
fn table_full_is_reported() {
    let mut space = ConfigSpace::new();
    for d in 0..32u8 {
        add_function(&mut space, 1, d, 0, 0x8086, d as u16, 0x02, 0x00, 0x00, false);
    }
    let mut pci = PCI::new();
    for _ in 0..2048 {
        pci.scan_bus(&space, 1).unwrap();
    }
    assert_eq!(pci.devices.len(), 256 * 32 * 8);
    assert_eq!(pci.scan_bus(&space, 1), Err(PCIScanError::TableFull));
}
