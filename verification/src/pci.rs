//! The PCI enumerator: port-mapped configuration space modelled as a
//! snapshot of raw 32-bit registers, header field extraction, class-code
//! classification, and the recursive bus/device/function scan that fills the
//! device table.

use vstd::prelude::*;

use crate::device_info::{
    BaseSystemPeripheral, Bridge, DisplayController, DockingStation, EncryptionController,
    InputDeviceController, MassStorageController, MemoryController, MultimediaController,
    NetworkController, PCIClassCode, PCISubClassIntelligentController, PCISubClassProcessor,
    PCISubClassWirelessController, SatelliteCommunicationController, SerialBusController,
    SignalProcessingController, SimpleCommunicationController, Unclassified, USBController,
};

verus! {

/// Buses the configuration address space distinguishes.
pub const PCI_MAX_BUS: usize = 256;

/// Devices per bus.
pub const PCI_MAX_DEVICE: usize = 32;

/// Functions per device.
pub const PCI_MAX_FUNCTION: usize = 8;

/// 32-bit configuration registers the enumerator reads per function.
pub const PCI_CONFIG_WORDS: usize = 16;

/// Capacity of the device table: one slot per addressable function.
pub const PCI_MAX_DEVICES: usize = 256 * 32 * 8;

/// Bound on nested bridge recursion: the bus-number space.
pub const PCI_SCAN_DEPTH: usize = 256;

/// Vendor ID a read of an absent function returns.
pub const PCI_VENDOR_ABSENT: u16 = 0xffff;

/// A snapshot of PCI configuration space: for every (bus, device, function),
/// the first 16 32-bit registers of its configuration header. An absent
/// function reads as all-ones, as the open bus does.
pub struct ConfigSpace {
    regs: Vec<u32>,
}

impl ConfigSpace {
    /// The snapshot holds one word per register of every addressable function.
    pub closed spec fn wf(self) -> bool {
        self.regs@.len() == PCI_MAX_BUS * PCI_MAX_DEVICE * PCI_MAX_FUNCTION * PCI_CONFIG_WORDS
    }

    /// The 32-bit register `reg` of function (`bus`, `device`, `function`).
    pub closed spec fn word(self, bus: int, device: int, function: int, reg: int) -> u32 {
        self.regs@[((bus * 32 + device) * 8 + function) * 16 + reg]
    }

    /// A snapshot with every register reading all-ones: an empty bus.
    pub fn new() -> (r: ConfigSpace)
        ensures
            r.wf(),
            forall|b: int, d: int, f: int, g: int|
                0 <= b < 256 && 0 <= d < 32 && 0 <= f < 8 && 0 <= g < 16
                    ==> #[trigger] r.word(b, d, f, g) == 0xffff_ffffu32,
    {
        let total: usize = PCI_MAX_BUS * PCI_MAX_DEVICE * PCI_MAX_FUNCTION * PCI_CONFIG_WORDS;
        let mut regs: Vec<u32> = Vec::new();
        while regs.len() < total
            invariant
                regs@.len() <= total,
                forall|i: int| 0 <= i < regs@.len() ==> regs@[i] == 0xffff_ffffu32,
            decreases total - regs@.len(),
        {
            regs.push(0xffff_ffff);
        }
        let r = ConfigSpace { regs };
        proof {
            assert forall|b: int, d: int, f: int, g: int|
                0 <= b < 256 && 0 <= d < 32 && 0 <= f < 8 && 0 <= g < 16
                    implies #[trigger] r.word(b, d, f, g) == 0xffff_ffffu32 by {
                let idx = ((b * 32 + d) * 8 + f) * 16 + g;
                assert(0 <= idx < r.regs@.len()) by (nonlinear_arith)
                    requires
                        0 <= b < 256 && 0 <= d < 32 && 0 <= f < 8 && 0 <= g < 16,
                        r.regs@.len() == 256 * 32 * 8 * 16,
                        idx == ((b * 32 + d) * 8 + f) * 16 + g;
            }
        }
        r
    }

    /// Write one configuration register of the snapshot.
    pub fn set_word(&mut self, bus: u8, device: u8, function: u8, reg: u8, value: u32)
        requires
            old(self).wf(),
            device < 32,
            function < 8,
            reg < 16,
        ensures
            final(self).wf(),
            final(self).word(bus as int, device as int, function as int, reg as int) == value,
            forall|b: int, d: int, f: int, g: int|
                0 <= b < 256 && 0 <= d < 32 && 0 <= f < 8 && 0 <= g < 16
                    && !(b == bus as int && d == device as int && f == function as int && g == reg as int)
                    ==> #[trigger] final(self).word(b, d, f, g) == old(self).word(b, d, f, g),
    {
        let idx: usize = ((bus as usize * 32 + device as usize) * 8 + function as usize) * 16
            + reg as usize;
        proof {
            lemma_config_index_bounds(bus as int, device as int, function as int, reg as int);
        }
        self.regs.set(idx, value);
        proof {
            assert forall|b: int, d: int, f: int, g: int|
                0 <= b < 256 && 0 <= d < 32 && 0 <= f < 8 && 0 <= g < 16
                    && !(b == bus as int && d == device as int && f == function as int && g == reg as int)
                    implies #[trigger] final(self).word(b, d, f, g) == old(self).word(b, d, f, g) by {
                lemma_config_index_bounds(b, d, f, g);
                lemma_config_index_injective(b, d, f, g, bus as int, device as int,
                    function as int, reg as int);
            }
        }
    }

    /// Read one configuration register of the snapshot.
    pub fn read_word(&self, bus: u8, device: u8, function: u8, reg: u8) -> (r: u32)
        requires
            self.wf(),
            device < 32,
            function < 8,
            reg < 16,
        ensures
            r == self.word(bus as int, device as int, function as int, reg as int),
    {
        let idx: usize = ((bus as usize * 32 + device as usize) * 8 + function as usize) * 16
            + reg as usize;
        proof {
            lemma_config_index_bounds(bus as int, device as int, function as int, reg as int);
        }
        self.regs[idx]
    }
}

/// The flat register index of any addressable function lies inside the snapshot.
proof fn lemma_config_index_bounds(b: int, d: int, f: int, g: int)
    requires
        0 <= b < 256,
        0 <= d < 32,
        0 <= f < 8,
        0 <= g < 16,
    ensures
        0 <= ((b * 32 + d) * 8 + f) * 16 + g < 256 * 32 * 8 * 16,
{
    assert(0 <= ((b * 32 + d) * 8 + f) * 16 + g < 256 * 32 * 8 * 16) by (nonlinear_arith)
        requires
            0 <= b < 256,
            0 <= d < 32,
            0 <= f < 8,
            0 <= g < 16;
}

/// Distinct addressable functions and registers use distinct flat indices.
proof fn lemma_config_index_injective(b1: int, d1: int, f1: int, g1: int, b2: int, d2: int, f2: int, g2: int)
    requires
        0 <= b1 < 256, 0 <= d1 < 32, 0 <= f1 < 8, 0 <= g1 < 16,
        0 <= b2 < 256, 0 <= d2 < 32, 0 <= f2 < 8, 0 <= g2 < 16,
        !(b1 == b2 && d1 == d2 && f1 == f2 && g1 == g2),
    ensures
        ((b1 * 32 + d1) * 8 + f1) * 16 + g1 != ((b2 * 32 + d2) * 8 + f2) * 16 + g2,
{
    assert(((b1 * 32 + d1) * 8 + f1) * 16 + g1 != ((b2 * 32 + d2) * 8 + f2) * 16 + g2)
        by (nonlinear_arith)
        requires
            0 <= b1 < 256, 0 <= d1 < 32, 0 <= f1 < 8, 0 <= g1 < 16,
            0 <= b2 < 256, 0 <= d2 < 32, 0 <= f2 < 8, 0 <= g2 < 16,
            !(b1 == b2 && d1 == d2 && f1 == f2 && g1 == g2);
}

/// The classification a device record carries.
#[derive(Debug, Copy, Clone, PartialEq, Eq, Structural)]
pub struct PCIDeviceType {
    pub pci_code_class: PCIClassCode,
}

/// The configuration header of one function, register by register.
#[derive(Debug, Copy, Clone, PartialEq, Eq, Structural)]
pub struct PCIConfiguration {
    pub vendor_id: u16,
    pub device_id: u16,
    pub command: u16,
    pub status: u16,
    pub revision_id: u8,
    pub interface: u8,
    pub sub_class: u8,
    pub base_class: u8,
    pub chacheline_size: u8,
    pub latency_timer: u8,
    pub header_type: u8,
    pub bist: u8,
    pub base_address_register0: u32,
    pub base_address_register1: u32,
    pub base_address_register2: u32,
    pub base_address_register3: u32,
    pub base_address_register4: u32,
    pub base_address_register5: u32,
    pub cardbus_cis_pointer: u32,
    pub subsystem_vendor_id: u16,
    pub subsystem_id: u16,
    pub expansion_rom_base_address: u32,
    pub capabilities_pointer: u8,
    pub interrupt_line: u8,
    pub interrupt_pin: u8,
    pub min_gnt: u8,
    pub max_lat: u8,
}

/// The header of (`bus`, `device`, `function`), each field extracted from
/// its register word exactly as the enumerator reads it.
pub open spec fn spec_config_of(space: ConfigSpace, bus: int, device: int, function: int) -> PCIConfiguration {
    PCIConfiguration {
        vendor_id: (space.word(bus, device, function, 0) & 0xffff) as u16,
        device_id: (space.word(bus, device, function, 0) >> 16) as u16,
        command: (space.word(bus, device, function, 1) & 0xffff) as u16,
        status: (space.word(bus, device, function, 1) >> 16) as u16,
        revision_id: (space.word(bus, device, function, 2) & 0xff) as u8,
        interface: ((space.word(bus, device, function, 2) >> 8) & 0xff) as u8,
        sub_class: ((space.word(bus, device, function, 2) >> 16) & 0xff) as u8,
        base_class: ((space.word(bus, device, function, 2) >> 24) & 0xff) as u8,
        chacheline_size: (space.word(bus, device, function, 3) & 0xff) as u8,
        latency_timer: ((space.word(bus, device, function, 3) >> 8) & 0xff) as u8,
        header_type: ((space.word(bus, device, function, 3) >> 16) & 0xff) as u8,
        bist: ((space.word(bus, device, function, 3) >> 24) & 0xff) as u8,
        base_address_register0: space.word(bus, device, function, 4),
        base_address_register1: space.word(bus, device, function, 5),
        base_address_register2: space.word(bus, device, function, 6),
        base_address_register3: space.word(bus, device, function, 7),
        base_address_register4: space.word(bus, device, function, 8),
        base_address_register5: space.word(bus, device, function, 9),
        cardbus_cis_pointer: space.word(bus, device, function, 10),
        subsystem_vendor_id: (space.word(bus, device, function, 11) & 0xffff) as u16,
        subsystem_id: (space.word(bus, device, function, 11) >> 16) as u16,
        expansion_rom_base_address: space.word(bus, device, function, 12),
        capabilities_pointer: (space.word(bus, device, function, 11) & 0xff) as u8,
        interrupt_line: (space.word(bus, device, function, 15) & 0xff) as u8,
        interrupt_pin: ((space.word(bus, device, function, 15) >> 8) & 0xff) as u8,
        min_gnt: ((space.word(bus, device, function, 15) >> 16) & 0xff) as u8,
        max_lat: ((space.word(bus, device, function, 15) >> 24) & 0xff) as u8,
    }
}

/// The class-code taxonomy, as a function of the three class fields.
pub open spec fn spec_classify(base_class: u8, sub_class: u8, interface: u8) -> PCIClassCode {
    match base_class {
        0x0 => match sub_class {
            0x0 => PCIClassCode::Unclassified(Unclassified::NonVGACompatibleUnclassifiedDevice),
            0x1 => PCIClassCode::Unclassified(Unclassified::VGACompatibleUnclassifiedDevice),
            _ => PCIClassCode::Unknown(base_class, sub_class, interface),
        },
        0x1 => match sub_class {
            0x0 => PCIClassCode::MassStorageController(MassStorageController::SCSIBusController),
            0x1 => PCIClassCode::MassStorageController(MassStorageController::IDEController),
            0x2 => PCIClassCode::MassStorageController(MassStorageController::FloppyDiskController),
            0x3 => PCIClassCode::MassStorageController(MassStorageController::IPIBusController),
            0x4 => PCIClassCode::MassStorageController(MassStorageController::RAIDController),
            0x5 => PCIClassCode::MassStorageController(MassStorageController::ATAController),
            0x6 => PCIClassCode::MassStorageController(MassStorageController::SerialATAController),
            0x7 => PCIClassCode::MassStorageController(MassStorageController::SerialAttachedSCSIController),
            0x8 => PCIClassCode::MassStorageController(MassStorageController::NonVolatileMemoryController),
            0x80 => PCIClassCode::MassStorageController(MassStorageController::Other),
            _ => PCIClassCode::Unknown(base_class, sub_class, interface),
        },
        0x2 => match sub_class {
            0x0 => PCIClassCode::NetworkController(NetworkController::EthernetController),
            0x1 => PCIClassCode::NetworkController(NetworkController::TokenRingController),
            0x2 => PCIClassCode::NetworkController(NetworkController::FDDIController),
            0x3 => PCIClassCode::NetworkController(NetworkController::ATMController),
            0x4 => PCIClassCode::NetworkController(NetworkController::ISDNController),
            0x5 => PCIClassCode::NetworkController(NetworkController::WorldFipController),
            0x6 => PCIClassCode::NetworkController(NetworkController::PICMG214MultiComputingController),
            0x7 => PCIClassCode::NetworkController(NetworkController::InfinibandController),
            0x8 => PCIClassCode::NetworkController(NetworkController::FabricController),
            0x80 => PCIClassCode::NetworkController(NetworkController::Other),
            _ => PCIClassCode::Unknown(base_class, sub_class, interface),
        },
        0x3 => match sub_class {
            0x0 => PCIClassCode::DisplayController(DisplayController::VGACompatibleController),
            0x1 => PCIClassCode::DisplayController(DisplayController::XGAController),
            0x2 => PCIClassCode::DisplayController(DisplayController::_3DController),
            0x80 => PCIClassCode::DisplayController(DisplayController::Other),
            _ => PCIClassCode::Unknown(base_class, sub_class, interface),
        },
        0x4 => match sub_class {
            0x0 => PCIClassCode::MultimediaController(MultimediaController::MultimediaVideoController),
            0x1 => PCIClassCode::MultimediaController(MultimediaController::MultimediaAudioController),
            0x2 => PCIClassCode::MultimediaController(MultimediaController::ComputerTelephonyDevice),
            0x3 => PCIClassCode::MultimediaController(MultimediaController::AudioDevice),
            0x80 => PCIClassCode::MultimediaController(MultimediaController::Other),
            _ => PCIClassCode::Unknown(base_class, sub_class, interface),
        },
        0x5 => match sub_class {
            0x0 => PCIClassCode::MemoryController(MemoryController::RAMController),
            0x1 => PCIClassCode::MemoryController(MemoryController::FlashController),
            0x80 => PCIClassCode::MemoryController(MemoryController::Other),
            _ => PCIClassCode::Unknown(base_class, sub_class, interface),
        },
        0x6 => match sub_class {
            0x0 => PCIClassCode::Bridge(Bridge::HostBridge),
            0x1 => PCIClassCode::Bridge(Bridge::ISABridge),
            0x2 => PCIClassCode::Bridge(Bridge::EISABridge),
            0x3 => PCIClassCode::Bridge(Bridge::MCABridge),
            0x4 => PCIClassCode::Bridge(Bridge::PCItoPCIBridge1),
            0x5 => PCIClassCode::Bridge(Bridge::PCMCIABridge),
            0x6 => PCIClassCode::Bridge(Bridge::NuBusBridge),
            0x7 => PCIClassCode::Bridge(Bridge::CardBusBridge),
            0x8 => PCIClassCode::Bridge(Bridge::RACEwayBridge),
            0x9 => PCIClassCode::Bridge(Bridge::PCItoPCIBridge2),
            0xa => PCIClassCode::Bridge(Bridge::InfiniBandtoPCIHostBridge),
            0x80 => PCIClassCode::Bridge(Bridge::Other),
            _ => PCIClassCode::Unknown(base_class, sub_class, interface),
        },
        0x7 => match sub_class {
            0x0 => PCIClassCode::SimpleCommunicationController(SimpleCommunicationController::SerialController),
            0x1 => PCIClassCode::SimpleCommunicationController(SimpleCommunicationController::ParallelController),
            0x2 => PCIClassCode::SimpleCommunicationController(SimpleCommunicationController::MultiportSerialController),
            0x3 => PCIClassCode::SimpleCommunicationController(SimpleCommunicationController::Modem),
            0x4 => PCIClassCode::SimpleCommunicationController(SimpleCommunicationController::IEEE48812Controller),
            0x5 => PCIClassCode::SimpleCommunicationController(SimpleCommunicationController::SmartCardController),
            0x80 => PCIClassCode::SimpleCommunicationController(SimpleCommunicationController::Other),
            _ => PCIClassCode::Unknown(base_class, sub_class, interface),
        },
        0x8 => match sub_class {
            0x0 => PCIClassCode::BaseSystemPeripheral(BaseSystemPeripheral::PIC),
            0x1 => PCIClassCode::BaseSystemPeripheral(BaseSystemPeripheral::DMAConrtoller),
            0x2 => PCIClassCode::BaseSystemPeripheral(BaseSystemPeripheral::Timer),
            0x3 => PCIClassCode::BaseSystemPeripheral(BaseSystemPeripheral::RTCController),
            0x4 => PCIClassCode::BaseSystemPeripheral(BaseSystemPeripheral::PCIHotPlugController),
            0x5 => PCIClassCode::BaseSystemPeripheral(BaseSystemPeripheral::SDHostController),
            0x6 => PCIClassCode::BaseSystemPeripheral(BaseSystemPeripheral::IOMMU),
            0x80 => PCIClassCode::BaseSystemPeripheral(BaseSystemPeripheral::Other),
            _ => PCIClassCode::Unknown(base_class, sub_class, interface),
        },
        0x9 => match sub_class {
            0x0 => PCIClassCode::InputDeviceController(InputDeviceController::KeyboardController),
            0x1 => PCIClassCode::InputDeviceController(InputDeviceController::DigitizerPen),
            0x2 => PCIClassCode::InputDeviceController(InputDeviceController::MouseController),
            0x3 => PCIClassCode::InputDeviceController(InputDeviceController::ScannerController),
            0x4 => PCIClassCode::InputDeviceController(InputDeviceController::GameportController),
            0x80 => PCIClassCode::InputDeviceController(InputDeviceController::Other),
            _ => PCIClassCode::Unknown(base_class, sub_class, interface),
        },
        0xa => match sub_class {
            0x0 => PCIClassCode::DockingStation(DockingStation::Generic),
            0x80 => PCIClassCode::DockingStation(DockingStation::Other),
            _ => PCIClassCode::Unknown(base_class, sub_class, interface),
        },
        0xb => match sub_class {
            0x0 => PCIClassCode::Processor(PCISubClassProcessor::_386),
            0x1 => PCIClassCode::Processor(PCISubClassProcessor::_486),
            0x2 => PCIClassCode::Processor(PCISubClassProcessor::Pentium),
            0x3 => PCIClassCode::Processor(PCISubClassProcessor::PentiumPro),
            0x10 => PCIClassCode::Processor(PCISubClassProcessor::Alpha),
            0x20 => PCIClassCode::Processor(PCISubClassProcessor::PowerPC),
            0x30 => PCIClassCode::Processor(PCISubClassProcessor::MIPS),
            0x40 => PCIClassCode::Processor(PCISubClassProcessor::CoProcessor),
            0x80 => PCIClassCode::Processor(PCISubClassProcessor::Other),
            _ => PCIClassCode::Unknown(base_class, sub_class, interface),
        },
        0xc => match sub_class {
            0x0 => PCIClassCode::SerialBusController(SerialBusController::FireWireController),
            0x1 => PCIClassCode::SerialBusController(SerialBusController::ACCESSBusController),
            0x2 => PCIClassCode::SerialBusController(SerialBusController::SSA),
            0x3 => match interface {
                0x0 => PCIClassCode::SerialBusController(SerialBusController::USBController(USBController::UHCIController)),
                0x10 => PCIClassCode::SerialBusController(SerialBusController::USBController(USBController::OHCIController)),
                0x20 => PCIClassCode::SerialBusController(SerialBusController::USBController(USBController::EHCIController)),
                0x30 => PCIClassCode::SerialBusController(SerialBusController::USBController(USBController::XHCIController)),
                0x80 => PCIClassCode::SerialBusController(SerialBusController::USBController(USBController::Unspecified)),
                0xfe => PCIClassCode::SerialBusController(SerialBusController::USBController(USBController::USBDevice)),
                _ => PCIClassCode::Unknown(base_class, sub_class, interface),
            },
            0x4 => PCIClassCode::SerialBusController(SerialBusController::FibreChannel),
            0x5 => PCIClassCode::SerialBusController(SerialBusController::SMBusController),
            0x6 => PCIClassCode::SerialBusController(SerialBusController::InfiniBandController),
            0x7 => PCIClassCode::SerialBusController(SerialBusController::IPMIInterface),
            0x8 => PCIClassCode::SerialBusController(SerialBusController::SERCOSInterface),
            0x9 => PCIClassCode::SerialBusController(SerialBusController::CANbusController),
            0x80 => PCIClassCode::SerialBusController(SerialBusController::Other),
            _ => PCIClassCode::Unknown(base_class, sub_class, interface),
        },
        0xd => match sub_class {
            0x0 => PCIClassCode::WirelessController(PCISubClassWirelessController::iRDACompatibleController),
            0x1 => PCIClassCode::WirelessController(PCISubClassWirelessController::ConsumerIRController),
            0x10 => PCIClassCode::WirelessController(PCISubClassWirelessController::RFController),
            0x11 => PCIClassCode::WirelessController(PCISubClassWirelessController::BluetoothController),
            0x12 => PCIClassCode::WirelessController(PCISubClassWirelessController::BroadbandController),
            0x20 => PCIClassCode::WirelessController(PCISubClassWirelessController::EthernetController8021a),
            0x21 => PCIClassCode::WirelessController(PCISubClassWirelessController::EthernetController8021b),
            0x80 => PCIClassCode::WirelessController(PCISubClassWirelessController::Other),
            _ => PCIClassCode::Unknown(base_class, sub_class, interface),
        },
        0xe => match sub_class {
            0x0 => PCIClassCode::IntelligentController(PCISubClassIntelligentController::I20),
            _ => PCIClassCode::Unknown(base_class, sub_class, interface),
        },
        0xf => match sub_class {
            0x1 => PCIClassCode::SatelliteCommunicationController(SatelliteCommunicationController::SatelliteTVController),
            0x2 => PCIClassCode::SatelliteCommunicationController(SatelliteCommunicationController::SatelliteAudioController),
            0x3 => PCIClassCode::SatelliteCommunicationController(SatelliteCommunicationController::SatelliteVoiceController),
            0x4 => PCIClassCode::SatelliteCommunicationController(SatelliteCommunicationController::SatelliteDataController),
            _ => PCIClassCode::Unknown(base_class, sub_class, interface),
        },
        0x10 => match sub_class {
            0x0 => PCIClassCode::EncryptionController(EncryptionController::NetworkAndComputingEncryptionDecryption),
            0x10 => PCIClassCode::EncryptionController(EncryptionController::EntertainmentEncryptionDecryption),
            0x80 => PCIClassCode::EncryptionController(EncryptionController::Other),
            _ => PCIClassCode::Unknown(base_class, sub_class, interface),
        },
        0x11 => match sub_class {
            0x0 => PCIClassCode::SignalProcessingController(SignalProcessingController::DPIOModules),
            0x1 => PCIClassCode::SignalProcessingController(SignalProcessingController::PerformanceCounters),
            0x10 => PCIClassCode::SignalProcessingController(SignalProcessingController::CommunicationSynchronizer),
            0x20 => PCIClassCode::SignalProcessingController(SignalProcessingController::SignalProcessingManagement),
            0x80 => PCIClassCode::SignalProcessingController(SignalProcessingController::Other),
            _ => PCIClassCode::Unknown(base_class, sub_class, interface),
        },
        0x12 => PCIClassCode::ProcessingAccelerator,
        0x13 => PCIClassCode::NonEssentialInstrumentation,
        0x14 => PCIClassCode::Reserved0x3F,
        0x40 => PCIClassCode::CoProcessor,
        0x41 => PCIClassCode::Reserved0xFE,
        0xff => PCIClassCode::UnassignedClass,
        _ => PCIClassCode::Unknown(base_class, sub_class, interface),
    }
}

impl PCIConfiguration {
    /// Bit 7 of the header type clear: the device has only function 0.
    pub fn is_single_function_device(self) -> (r: bool)
        ensures
            r == (self.header_type & 0x80 == 0),
    {
        self.header_type & 0x80 == 0
    }

    /// Classify the header's class fields into the taxonomy; a combination
    /// the taxonomy does not know yields its `Unknown` value.
    pub fn return_device_type(self) -> (r: PCIDeviceType)
        ensures
            r.pci_code_class == spec_classify(self.base_class, self.sub_class, self.interface),
    {
        let base_class = self.base_class;
        let sub_class = self.sub_class;
        let interface = self.interface;
        let class_code =
        match base_class {
            0x0 => match sub_class {
                0x0 => PCIClassCode::Unclassified(Unclassified::NonVGACompatibleUnclassifiedDevice),
                0x1 => PCIClassCode::Unclassified(Unclassified::VGACompatibleUnclassifiedDevice),
                _ => PCIClassCode::Unknown(base_class, sub_class, interface),
            },
            0x1 => match sub_class {
                0x0 => PCIClassCode::MassStorageController(MassStorageController::SCSIBusController),
                0x1 => PCIClassCode::MassStorageController(MassStorageController::IDEController),
                0x2 => PCIClassCode::MassStorageController(MassStorageController::FloppyDiskController),
                0x3 => PCIClassCode::MassStorageController(MassStorageController::IPIBusController),
                0x4 => PCIClassCode::MassStorageController(MassStorageController::RAIDController),
                0x5 => PCIClassCode::MassStorageController(MassStorageController::ATAController),
                0x6 => PCIClassCode::MassStorageController(MassStorageController::SerialATAController),
                0x7 => PCIClassCode::MassStorageController(MassStorageController::SerialAttachedSCSIController),
                0x8 => PCIClassCode::MassStorageController(MassStorageController::NonVolatileMemoryController),
                0x80 => PCIClassCode::MassStorageController(MassStorageController::Other),
                _ => PCIClassCode::Unknown(base_class, sub_class, interface),
            },
            0x2 => match sub_class {
                0x0 => PCIClassCode::NetworkController(NetworkController::EthernetController),
                0x1 => PCIClassCode::NetworkController(NetworkController::TokenRingController),
                0x2 => PCIClassCode::NetworkController(NetworkController::FDDIController),
                0x3 => PCIClassCode::NetworkController(NetworkController::ATMController),
                0x4 => PCIClassCode::NetworkController(NetworkController::ISDNController),
                0x5 => PCIClassCode::NetworkController(NetworkController::WorldFipController),
                0x6 => PCIClassCode::NetworkController(NetworkController::PICMG214MultiComputingController),
                0x7 => PCIClassCode::NetworkController(NetworkController::InfinibandController),
                0x8 => PCIClassCode::NetworkController(NetworkController::FabricController),
                0x80 => PCIClassCode::NetworkController(NetworkController::Other),
                _ => PCIClassCode::Unknown(base_class, sub_class, interface),
            },
            0x3 => match sub_class {
                0x0 => PCIClassCode::DisplayController(DisplayController::VGACompatibleController),
                0x1 => PCIClassCode::DisplayController(DisplayController::XGAController),
                0x2 => PCIClassCode::DisplayController(DisplayController::_3DController),
                0x80 => PCIClassCode::DisplayController(DisplayController::Other),
                _ => PCIClassCode::Unknown(base_class, sub_class, interface),
            },
            0x4 => match sub_class {
                0x0 => PCIClassCode::MultimediaController(MultimediaController::MultimediaVideoController),
                0x1 => PCIClassCode::MultimediaController(MultimediaController::MultimediaAudioController),
                0x2 => PCIClassCode::MultimediaController(MultimediaController::ComputerTelephonyDevice),
                0x3 => PCIClassCode::MultimediaController(MultimediaController::AudioDevice),
                0x80 => PCIClassCode::MultimediaController(MultimediaController::Other),
                _ => PCIClassCode::Unknown(base_class, sub_class, interface),
            },
            0x5 => match sub_class {
                0x0 => PCIClassCode::MemoryController(MemoryController::RAMController),
                0x1 => PCIClassCode::MemoryController(MemoryController::FlashController),
                0x80 => PCIClassCode::MemoryController(MemoryController::Other),
                _ => PCIClassCode::Unknown(base_class, sub_class, interface),
            },
            0x6 => match sub_class {
                0x0 => PCIClassCode::Bridge(Bridge::HostBridge),
                0x1 => PCIClassCode::Bridge(Bridge::ISABridge),
                0x2 => PCIClassCode::Bridge(Bridge::EISABridge),
                0x3 => PCIClassCode::Bridge(Bridge::MCABridge),
                0x4 => PCIClassCode::Bridge(Bridge::PCItoPCIBridge1),
                0x5 => PCIClassCode::Bridge(Bridge::PCMCIABridge),
                0x6 => PCIClassCode::Bridge(Bridge::NuBusBridge),
                0x7 => PCIClassCode::Bridge(Bridge::CardBusBridge),
                0x8 => PCIClassCode::Bridge(Bridge::RACEwayBridge),
                0x9 => PCIClassCode::Bridge(Bridge::PCItoPCIBridge2),
                0xa => PCIClassCode::Bridge(Bridge::InfiniBandtoPCIHostBridge),
                0x80 => PCIClassCode::Bridge(Bridge::Other),
                _ => PCIClassCode::Unknown(base_class, sub_class, interface),
            },
            0x7 => match sub_class {
                0x0 => PCIClassCode::SimpleCommunicationController(SimpleCommunicationController::SerialController),
                0x1 => PCIClassCode::SimpleCommunicationController(SimpleCommunicationController::ParallelController),
                0x2 => PCIClassCode::SimpleCommunicationController(SimpleCommunicationController::MultiportSerialController),
                0x3 => PCIClassCode::SimpleCommunicationController(SimpleCommunicationController::Modem),
                0x4 => PCIClassCode::SimpleCommunicationController(SimpleCommunicationController::IEEE48812Controller),
                0x5 => PCIClassCode::SimpleCommunicationController(SimpleCommunicationController::SmartCardController),
                0x80 => PCIClassCode::SimpleCommunicationController(SimpleCommunicationController::Other),
                _ => PCIClassCode::Unknown(base_class, sub_class, interface),
            },
            0x8 => match sub_class {
                0x0 => PCIClassCode::BaseSystemPeripheral(BaseSystemPeripheral::PIC),
                0x1 => PCIClassCode::BaseSystemPeripheral(BaseSystemPeripheral::DMAConrtoller),
                0x2 => PCIClassCode::BaseSystemPeripheral(BaseSystemPeripheral::Timer),
                0x3 => PCIClassCode::BaseSystemPeripheral(BaseSystemPeripheral::RTCController),
                0x4 => PCIClassCode::BaseSystemPeripheral(BaseSystemPeripheral::PCIHotPlugController),
                0x5 => PCIClassCode::BaseSystemPeripheral(BaseSystemPeripheral::SDHostController),
                0x6 => PCIClassCode::BaseSystemPeripheral(BaseSystemPeripheral::IOMMU),
                0x80 => PCIClassCode::BaseSystemPeripheral(BaseSystemPeripheral::Other),
                _ => PCIClassCode::Unknown(base_class, sub_class, interface),
            },
            0x9 => match sub_class {
                0x0 => PCIClassCode::InputDeviceController(InputDeviceController::KeyboardController),
                0x1 => PCIClassCode::InputDeviceController(InputDeviceController::DigitizerPen),
                0x2 => PCIClassCode::InputDeviceController(InputDeviceController::MouseController),
                0x3 => PCIClassCode::InputDeviceController(InputDeviceController::ScannerController),
                0x4 => PCIClassCode::InputDeviceController(InputDeviceController::GameportController),
                0x80 => PCIClassCode::InputDeviceController(InputDeviceController::Other),
                _ => PCIClassCode::Unknown(base_class, sub_class, interface),
            },
            0xa => match sub_class {
                0x0 => PCIClassCode::DockingStation(DockingStation::Generic),
                0x80 => PCIClassCode::DockingStation(DockingStation::Other),
                _ => PCIClassCode::Unknown(base_class, sub_class, interface),
            },
            0xb => match sub_class {
                0x0 => PCIClassCode::Processor(PCISubClassProcessor::_386),
                0x1 => PCIClassCode::Processor(PCISubClassProcessor::_486),
                0x2 => PCIClassCode::Processor(PCISubClassProcessor::Pentium),
                0x3 => PCIClassCode::Processor(PCISubClassProcessor::PentiumPro),
                0x10 => PCIClassCode::Processor(PCISubClassProcessor::Alpha),
                0x20 => PCIClassCode::Processor(PCISubClassProcessor::PowerPC),
                0x30 => PCIClassCode::Processor(PCISubClassProcessor::MIPS),
                0x40 => PCIClassCode::Processor(PCISubClassProcessor::CoProcessor),
                0x80 => PCIClassCode::Processor(PCISubClassProcessor::Other),
                _ => PCIClassCode::Unknown(base_class, sub_class, interface),
            },
            0xc => match sub_class {
                0x0 => PCIClassCode::SerialBusController(SerialBusController::FireWireController),
                0x1 => PCIClassCode::SerialBusController(SerialBusController::ACCESSBusController),
                0x2 => PCIClassCode::SerialBusController(SerialBusController::SSA),
                0x3 => match interface {
                    0x0 => PCIClassCode::SerialBusController(SerialBusController::USBController(USBController::UHCIController)),
                    0x10 => PCIClassCode::SerialBusController(SerialBusController::USBController(USBController::OHCIController)),
                    0x20 => PCIClassCode::SerialBusController(SerialBusController::USBController(USBController::EHCIController)),
                    0x30 => PCIClassCode::SerialBusController(SerialBusController::USBController(USBController::XHCIController)),
                    0x80 => PCIClassCode::SerialBusController(SerialBusController::USBController(USBController::Unspecified)),
                    0xfe => PCIClassCode::SerialBusController(SerialBusController::USBController(USBController::USBDevice)),
                    _ => PCIClassCode::Unknown(base_class, sub_class, interface),
                },
                0x4 => PCIClassCode::SerialBusController(SerialBusController::FibreChannel),
                0x5 => PCIClassCode::SerialBusController(SerialBusController::SMBusController),
                0x6 => PCIClassCode::SerialBusController(SerialBusController::InfiniBandController),
                0x7 => PCIClassCode::SerialBusController(SerialBusController::IPMIInterface),
                0x8 => PCIClassCode::SerialBusController(SerialBusController::SERCOSInterface),
                0x9 => PCIClassCode::SerialBusController(SerialBusController::CANbusController),
                0x80 => PCIClassCode::SerialBusController(SerialBusController::Other),
                _ => PCIClassCode::Unknown(base_class, sub_class, interface),
            },
            0xd => match sub_class {
                0x0 => PCIClassCode::WirelessController(PCISubClassWirelessController::iRDACompatibleController),
                0x1 => PCIClassCode::WirelessController(PCISubClassWirelessController::ConsumerIRController),
                0x10 => PCIClassCode::WirelessController(PCISubClassWirelessController::RFController),
                0x11 => PCIClassCode::WirelessController(PCISubClassWirelessController::BluetoothController),
                0x12 => PCIClassCode::WirelessController(PCISubClassWirelessController::BroadbandController),
                0x20 => PCIClassCode::WirelessController(PCISubClassWirelessController::EthernetController8021a),
                0x21 => PCIClassCode::WirelessController(PCISubClassWirelessController::EthernetController8021b),
                0x80 => PCIClassCode::WirelessController(PCISubClassWirelessController::Other),
                _ => PCIClassCode::Unknown(base_class, sub_class, interface),
            },
            0xe => match sub_class {
                0x0 => PCIClassCode::IntelligentController(PCISubClassIntelligentController::I20),
                _ => PCIClassCode::Unknown(base_class, sub_class, interface),
            },
            0xf => match sub_class {
                0x1 => PCIClassCode::SatelliteCommunicationController(SatelliteCommunicationController::SatelliteTVController),
                0x2 => PCIClassCode::SatelliteCommunicationController(SatelliteCommunicationController::SatelliteAudioController),
                0x3 => PCIClassCode::SatelliteCommunicationController(SatelliteCommunicationController::SatelliteVoiceController),
                0x4 => PCIClassCode::SatelliteCommunicationController(SatelliteCommunicationController::SatelliteDataController),
                _ => PCIClassCode::Unknown(base_class, sub_class, interface),
            },
            0x10 => match sub_class {
                0x0 => PCIClassCode::EncryptionController(EncryptionController::NetworkAndComputingEncryptionDecryption),
                0x10 => PCIClassCode::EncryptionController(EncryptionController::EntertainmentEncryptionDecryption),
                0x80 => PCIClassCode::EncryptionController(EncryptionController::Other),
                _ => PCIClassCode::Unknown(base_class, sub_class, interface),
            },
            0x11 => match sub_class {
                0x0 => PCIClassCode::SignalProcessingController(SignalProcessingController::DPIOModules),
                0x1 => PCIClassCode::SignalProcessingController(SignalProcessingController::PerformanceCounters),
                0x10 => PCIClassCode::SignalProcessingController(SignalProcessingController::CommunicationSynchronizer),
                0x20 => PCIClassCode::SignalProcessingController(SignalProcessingController::SignalProcessingManagement),
                0x80 => PCIClassCode::SignalProcessingController(SignalProcessingController::Other),
                _ => PCIClassCode::Unknown(base_class, sub_class, interface),
            },
            0x12 => PCIClassCode::ProcessingAccelerator,
            0x13 => PCIClassCode::NonEssentialInstrumentation,
            0x14 => PCIClassCode::Reserved0x3F,
            0x40 => PCIClassCode::CoProcessor,
            0x41 => PCIClassCode::Reserved0xFE,
            0xff => PCIClassCode::UnassignedClass,
            _ => PCIClassCode::Unknown(base_class, sub_class, interface),
        };
        PCIDeviceType { pci_code_class: class_code }
    }
}

/// One discovered function: its address, its full header, and its
/// classification.
#[derive(Debug, Copy, Clone, PartialEq, Eq, Structural)]
pub struct PCIDevice {
    pub bus: u8,
    pub device: u8,
    pub function: u8,
    pub pci_configuration: PCIConfiguration,
    pub device_type: PCIDeviceType,
}

/// Why an enumeration pass failed.
#[derive(Debug, Copy, Clone, PartialEq, Eq, Structural)]
pub enum PCIScanError {
    /// The device table's capacity is exhausted.
    TableFull,
    /// Bridge recursion exceeded the bus-number space.
    RecursionLimit,
}

/// The function's vendor ID is not the absent sentinel.
pub open spec fn spec_present(space: ConfigSpace, bus: int, device: int, function: int) -> bool {
    spec_config_of(space, bus, device, function).vendor_id != PCI_VENDOR_ABSENT
}

/// Function 0 of the device reports a single-function header.
pub open spec fn spec_single_function(space: ConfigSpace, bus: int, device: int) -> bool {
    spec_config_of(space, bus, device, 0).header_type & 0x80 == 0
}

/// The function classifies as a PCI-to-PCI bridge.
pub open spec fn spec_is_bridge(space: ConfigSpace, bus: int, device: int, function: int) -> bool {
    spec_config_of(space, bus, device, function).base_class == 0x06
        && spec_config_of(space, bus, device, function).sub_class == 0x04
}

/// The secondary bus number a bridge names: bits 8-15 of its second
/// base-address register.
pub open spec fn spec_secondary_bus(space: ConfigSpace, bus: int, device: int, function: int) -> int {
    ((spec_config_of(space, bus, device, function).base_address_register2 >> 8) & 0xff) as int
}

/// The record the scan appends for one function.
pub open spec fn spec_device_record(space: ConfigSpace, bus: int, device: int, function: int) -> PCIDevice {
    let c = spec_config_of(space, bus, device, function);
    PCIDevice {
        bus: bus as u8,
        device: device as u8,
        function: function as u8,
        pci_configuration: c,
        device_type: PCIDeviceType {
            pci_code_class: spec_classify(c.base_class, c.sub_class, c.interface),
        },
    }
}

/// What a scan pass leaves behind: the device table it produced, and the
/// error that stopped it, if one did.
pub struct ScanOutcome {
    pub table: Seq<PCIDevice>,
    pub err: Option<PCIScanError>,
}

/// Scanning one function: record it, and recurse into the secondary bus if
/// it is a PCI-to-PCI bridge.
pub open spec fn spec_scan_function(space: ConfigSpace, table: Seq<PCIDevice>, bus: int, device: int, function: int, fuel: nat) -> ScanOutcome
    decreases fuel, 0int, 0int,
{
    if table.len() >= PCI_MAX_DEVICES {
        ScanOutcome { table, err: Some(PCIScanError::TableFull) }
    } else {
        let t2 = table.push(spec_device_record(space, bus, device, function));
        if spec_is_bridge(space, bus, device, function) {
            if fuel == 0 {
                ScanOutcome { table: t2, err: Some(PCIScanError::RecursionLimit) }
            } else {
                spec_scan_bus(space, t2, spec_secondary_bus(space, bus, device, function),
                    (fuel - 1) as nat)
            }
        } else {
            ScanOutcome { table: t2, err: None }
        }
    }
}

/// Probing functions `function..8` of a multi-function device, skipping the
/// absent ones.
pub open spec fn spec_scan_device_functions(space: ConfigSpace, table: Seq<PCIDevice>, bus: int, device: int, function: int, fuel: nat) -> ScanOutcome
    decreases fuel, 1int, 8 - function,
{
    if function < 1 || function >= 8 {
        ScanOutcome { table, err: None }
    } else if spec_present(space, bus, device, function) {
        let r = spec_scan_function(space, table, bus, device, function, fuel);
        if r.err is Some {
            r
        } else {
            spec_scan_device_functions(space, r.table, bus, device, function + 1, fuel)
        }
    } else {
        spec_scan_device_functions(space, table, bus, device, function + 1, fuel)
    }
}

/// Scanning one device: always function 0; functions 1-7 only when function
/// 0 reports a multi-function header.
pub open spec fn spec_scan_device(space: ConfigSpace, table: Seq<PCIDevice>, bus: int, device: int, fuel: nat) -> ScanOutcome
    decreases fuel, 2int, 0int,
{
    let r0 = spec_scan_function(space, table, bus, device, 0, fuel);
    if r0.err is Some {
        r0
    } else if spec_single_function(space, bus, device) {
        r0
    } else {
        spec_scan_device_functions(space, r0.table, bus, device, 1, fuel)
    }
}

/// Scanning devices `device..32` of one bus, skipping those whose function 0
/// is absent.
pub open spec fn spec_scan_bus_devices(space: ConfigSpace, table: Seq<PCIDevice>, bus: int, device: int, fuel: nat) -> ScanOutcome
    decreases fuel, 3int, 32 - device,
{
    if device < 0 || device >= 32 {
        ScanOutcome { table, err: None }
    } else if spec_present(space, bus, device, 0) {
        let r = spec_scan_device(space, table, bus, device, fuel);
        if r.err is Some {
            r
        } else {
            spec_scan_bus_devices(space, r.table, bus, device + 1, fuel)
        }
    } else {
        spec_scan_bus_devices(space, table, bus, device + 1, fuel)
    }
}

/// Scanning one whole bus.
pub open spec fn spec_scan_bus(space: ConfigSpace, table: Seq<PCIDevice>, bus: int, fuel: nat) -> ScanOutcome
    decreases fuel, 4int, 0int,
{
    spec_scan_bus_devices(space, table, bus, 0, fuel)
}

/// Treating functions `function..8` of (bus 0, device 0) as host bridges:
/// each present one roots a scan of the bus with its function number.
pub open spec fn spec_scan_host_functions(space: ConfigSpace, table: Seq<PCIDevice>, function: int, fuel: nat) -> ScanOutcome
    decreases fuel, 5int, 8 - function,
{
    if function < 0 || function >= 8 {
        ScanOutcome { table, err: None }
    } else if spec_present(space, 0, 0, function) {
        let r = spec_scan_bus(space, table, function, fuel);
        if r.err is Some {
            r
        } else {
            spec_scan_host_functions(space, r.table, function + 1, fuel)
        }
    } else {
        spec_scan_host_functions(space, table, function + 1, fuel)
    }
}

/// The whole enumeration pass: bus 0 alone when the host bridge is
/// single-function, otherwise one bus per present host-bridge function.
pub open spec fn spec_scan_all_bus(space: ConfigSpace, table: Seq<PCIDevice>, fuel: nat) -> ScanOutcome
    decreases fuel, 6int, 0int,
{
    if spec_single_function(space, 0, 0) {
        spec_scan_bus(space, table, 0, fuel)
    } else {
        spec_scan_host_functions(space, table, 0, fuel)
    }
}

/// The result an outcome's error field stands for.
pub open spec fn spec_outcome_result(err: Option<PCIScanError>) -> Result<(), PCIScanError> {
    match err {
        None => Ok(()),
        Some(e) => Err(e),
    }
}

/// The enumerator: the device table discovered so far. The configuration
/// space it scans is handed in as a snapshot.
pub struct PCI {
    pub devices: Vec<PCIDevice>,
    pub device_index: usize,
}

impl PCI {
    /// The running index mirrors the table's length, which never exceeds its
    /// capacity.
    pub open spec fn wf(self) -> bool {
        self.device_index == self.devices@.len() && self.devices@.len() <= PCI_MAX_DEVICES
    }

    /// An enumerator with an empty device table.
    pub fn new() -> (r: PCI)
        ensures
            r.wf(),
            r.devices@ == Seq::<PCIDevice>::empty(),
            r.device_index == 0,
    {
        PCI { devices: Vec::new(), device_index: 0 }
    }

    /// The configuration address word for one register of one function:
    /// enable bit, bus, device, function, and the word-aligned register.
    pub fn config_address(bus: u8, device: u8, function: u8, register_address: u8) -> (r: u32)
        ensures
            r == (0x8000_0000u32 | ((bus as u32) << 16) | ((device as u32) << 11)
                | ((function as u32) << 8) | ((register_address as u32) & 0xfc)),
    {
        0b1000_0000_0000_0000_0000_0000_0000_0000 | (bus as u32) << 16 | (device as u32) << 11
            | (function as u32) << 8 | (register_address as u32) & 0xfc
    }

    /// Header field `vendor_id` of the named function.
    pub fn read_vendor_id(&self, space: &ConfigSpace, bus: u8, device: u8, function: u8) -> (r: u16)
        requires
            space.wf(),
            device < 32,
            function < 8,
        ensures
            r == spec_config_of(*space, bus as int, device as int, function as int).vendor_id,
    {
        let w = space.read_word(bus, device, function, 0);
        (w & 0xffff) as u16
    }

    /// Header field `device_id` of the named function.
    pub fn read_device_id(&self, space: &ConfigSpace, bus: u8, device: u8, function: u8) -> (r: u16)
        requires
            space.wf(),
            device < 32,
            function < 8,
        ensures
            r == spec_config_of(*space, bus as int, device as int, function as int).device_id,
    {
        let w = space.read_word(bus, device, function, 0);
        (w >> 16) as u16
    }

    /// Header field `command` of the named function.
    pub fn read_command(&self, space: &ConfigSpace, bus: u8, device: u8, function: u8) -> (r: u16)
        requires
            space.wf(),
            device < 32,
            function < 8,
        ensures
            r == spec_config_of(*space, bus as int, device as int, function as int).command,
    {
        let w = space.read_word(bus, device, function, 1);
        (w & 0xffff) as u16
    }

    /// Header field `status` of the named function.
    pub fn read_status(&self, space: &ConfigSpace, bus: u8, device: u8, function: u8) -> (r: u16)
        requires
            space.wf(),
            device < 32,
            function < 8,
        ensures
            r == spec_config_of(*space, bus as int, device as int, function as int).status,
    {
        let w = space.read_word(bus, device, function, 1);
        (w >> 16) as u16
    }

    /// Header field `revision_id` of the named function.
    pub fn read_revision_id(&self, space: &ConfigSpace, bus: u8, device: u8, function: u8) -> (r: u8)
        requires
            space.wf(),
            device < 32,
            function < 8,
        ensures
            r == spec_config_of(*space, bus as int, device as int, function as int).revision_id,
    {
        let w = space.read_word(bus, device, function, 2);
        (w & 0xff) as u8
    }

    /// Header field `interface` of the named function.
    pub fn read_interface(&self, space: &ConfigSpace, bus: u8, device: u8, function: u8) -> (r: u8)
        requires
            space.wf(),
            device < 32,
            function < 8,
        ensures
            r == spec_config_of(*space, bus as int, device as int, function as int).interface,
    {
        let w = space.read_word(bus, device, function, 2);
        ((w >> 8) & 0xff) as u8
    }

    /// Header field `sub_class` of the named function.
    pub fn read_sub_class(&self, space: &ConfigSpace, bus: u8, device: u8, function: u8) -> (r: u8)
        requires
            space.wf(),
            device < 32,
            function < 8,
        ensures
            r == spec_config_of(*space, bus as int, device as int, function as int).sub_class,
    {
        let w = space.read_word(bus, device, function, 2);
        ((w >> 16) & 0xff) as u8
    }

    /// Header field `base_class` of the named function.
    pub fn read_base_class(&self, space: &ConfigSpace, bus: u8, device: u8, function: u8) -> (r: u8)
        requires
            space.wf(),
            device < 32,
            function < 8,
        ensures
            r == spec_config_of(*space, bus as int, device as int, function as int).base_class,
    {
        let w = space.read_word(bus, device, function, 2);
        ((w >> 24) & 0xff) as u8
    }

    /// Header field `chacheline_size` of the named function.
    pub fn read_cacheline_size(&self, space: &ConfigSpace, bus: u8, device: u8, function: u8) -> (r: u8)
        requires
            space.wf(),
            device < 32,
            function < 8,
        ensures
            r == spec_config_of(*space, bus as int, device as int, function as int).chacheline_size,
    {
        let w = space.read_word(bus, device, function, 3);
        (w & 0xff) as u8
    }

    /// Header field `latency_timer` of the named function.
    pub fn read_latency_timer(&self, space: &ConfigSpace, bus: u8, device: u8, function: u8) -> (r: u8)
        requires
            space.wf(),
            device < 32,
            function < 8,
        ensures
            r == spec_config_of(*space, bus as int, device as int, function as int).latency_timer,
    {
        let w = space.read_word(bus, device, function, 3);
        ((w >> 8) & 0xff) as u8
    }

    /// Header field `header_type` of the named function.
    pub fn read_header_type(&self, space: &ConfigSpace, bus: u8, device: u8, function: u8) -> (r: u8)
        requires
            space.wf(),
            device < 32,
            function < 8,
        ensures
            r == spec_config_of(*space, bus as int, device as int, function as int).header_type,
    {
        let w = space.read_word(bus, device, function, 3);
        ((w >> 16) & 0xff) as u8
    }

    /// Header field `bist` of the named function.
    pub fn read_bist(&self, space: &ConfigSpace, bus: u8, device: u8, function: u8) -> (r: u8)
        requires
            space.wf(),
            device < 32,
            function < 8,
        ensures
            r == spec_config_of(*space, bus as int, device as int, function as int).bist,
    {
        let w = space.read_word(bus, device, function, 3);
        ((w >> 24) & 0xff) as u8
    }

    /// Header field `base_address_register0` of the named function.
    pub fn read_base_address_register_0(&self, space: &ConfigSpace, bus: u8, device: u8, function: u8) -> (r: u32)
        requires
            space.wf(),
            device < 32,
            function < 8,
        ensures
            r == spec_config_of(*space, bus as int, device as int, function as int).base_address_register0,
    {
        let w = space.read_word(bus, device, function, 4);
        w
    }

    /// Header field `base_address_register1` of the named function.
    pub fn read_base_address_register_1(&self, space: &ConfigSpace, bus: u8, device: u8, function: u8) -> (r: u32)
        requires
            space.wf(),
            device < 32,
            function < 8,
        ensures
            r == spec_config_of(*space, bus as int, device as int, function as int).base_address_register1,
    {
        let w = space.read_word(bus, device, function, 5);
        w
    }

    /// Header field `base_address_register2` of the named function.
    pub fn read_base_address_register_2(&self, space: &ConfigSpace, bus: u8, device: u8, function: u8) -> (r: u32)
        requires
            space.wf(),
            device < 32,
            function < 8,
        ensures
            r == spec_config_of(*space, bus as int, device as int, function as int).base_address_register2,
    {
        let w = space.read_word(bus, device, function, 6);
        w
    }

    /// Header field `base_address_register3` of the named function.
    pub fn read_base_address_register_3(&self, space: &ConfigSpace, bus: u8, device: u8, function: u8) -> (r: u32)
        requires
            space.wf(),
            device < 32,
            function < 8,
        ensures
            r == spec_config_of(*space, bus as int, device as int, function as int).base_address_register3,
    {
        let w = space.read_word(bus, device, function, 7);
        w
    }

    /// Header field `base_address_register4` of the named function.
    pub fn read_base_address_register_4(&self, space: &ConfigSpace, bus: u8, device: u8, function: u8) -> (r: u32)
        requires
            space.wf(),
            device < 32,
            function < 8,
        ensures
            r == spec_config_of(*space, bus as int, device as int, function as int).base_address_register4,
    {
        let w = space.read_word(bus, device, function, 8);
        w
    }

    /// Header field `base_address_register5` of the named function.
    pub fn read_base_address_register_5(&self, space: &ConfigSpace, bus: u8, device: u8, function: u8) -> (r: u32)
        requires
            space.wf(),
            device < 32,
            function < 8,
        ensures
            r == spec_config_of(*space, bus as int, device as int, function as int).base_address_register5,
    {
        let w = space.read_word(bus, device, function, 9);
        w
    }

    /// Header field `cardbus_cis_pointer` of the named function.
    pub fn read_cardbus_cis_pointer(&self, space: &ConfigSpace, bus: u8, device: u8, function: u8) -> (r: u32)
        requires
            space.wf(),
            device < 32,
            function < 8,
        ensures
            r == spec_config_of(*space, bus as int, device as int, function as int).cardbus_cis_pointer,
    {
        let w = space.read_word(bus, device, function, 10);
        w
    }

    /// Header field `subsystem_vendor_id` of the named function.
    pub fn read_subsystem_vendor_id(&self, space: &ConfigSpace, bus: u8, device: u8, function: u8) -> (r: u16)
        requires
            space.wf(),
            device < 32,
            function < 8,
        ensures
            r == spec_config_of(*space, bus as int, device as int, function as int).subsystem_vendor_id,
    {
        let w = space.read_word(bus, device, function, 11);
        (w & 0xffff) as u16
    }

    /// Header field `subsystem_id` of the named function.
    pub fn read_subsystem_id(&self, space: &ConfigSpace, bus: u8, device: u8, function: u8) -> (r: u16)
        requires
            space.wf(),
            device < 32,
            function < 8,
        ensures
            r == spec_config_of(*space, bus as int, device as int, function as int).subsystem_id,
    {
        let w = space.read_word(bus, device, function, 11);
        (w >> 16) as u16
    }

    /// Header field `expansion_rom_base_address` of the named function.
    pub fn read_expansion_rom_base_address(&self, space: &ConfigSpace, bus: u8, device: u8, function: u8) -> (r: u32)
        requires
            space.wf(),
            device < 32,
            function < 8,
        ensures
            r == spec_config_of(*space, bus as int, device as int, function as int).expansion_rom_base_address,
    {
        let w = space.read_word(bus, device, function, 12);
        w
    }

    /// Header field `capabilities_pointer` of the named function.
    pub fn read_capabilities_pointer(&self, space: &ConfigSpace, bus: u8, device: u8, function: u8) -> (r: u8)
        requires
            space.wf(),
            device < 32,
            function < 8,
        ensures
            r == spec_config_of(*space, bus as int, device as int, function as int).capabilities_pointer,
    {
        let w = space.read_word(bus, device, function, 11);
        (w & 0xff) as u8
    }

    /// Header field `interrupt_line` of the named function.
    pub fn read_interruput_line(&self, space: &ConfigSpace, bus: u8, device: u8, function: u8) -> (r: u8)
        requires
            space.wf(),
            device < 32,
            function < 8,
        ensures
            r == spec_config_of(*space, bus as int, device as int, function as int).interrupt_line,
    {
        let w = space.read_word(bus, device, function, 15);
        (w & 0xff) as u8
    }

    /// Header field `interrupt_pin` of the named function.
    pub fn read_interruput_pin(&self, space: &ConfigSpace, bus: u8, device: u8, function: u8) -> (r: u8)
        requires
            space.wf(),
            device < 32,
            function < 8,
        ensures
            r == spec_config_of(*space, bus as int, device as int, function as int).interrupt_pin,
    {
        let w = space.read_word(bus, device, function, 15);
        ((w >> 8) & 0xff) as u8
    }

    /// Header field `min_gnt` of the named function.
    pub fn read_min_gnt(&self, space: &ConfigSpace, bus: u8, device: u8, function: u8) -> (r: u8)
        requires
            space.wf(),
            device < 32,
            function < 8,
        ensures
            r == spec_config_of(*space, bus as int, device as int, function as int).min_gnt,
    {
        let w = space.read_word(bus, device, function, 15);
        ((w >> 16) & 0xff) as u8
    }

    /// Header field `max_lat` of the named function.
    pub fn read_max_lat(&self, space: &ConfigSpace, bus: u8, device: u8, function: u8) -> (r: u8)
        requires
            space.wf(),
            device < 32,
            function < 8,
        ensures
            r == spec_config_of(*space, bus as int, device as int, function as int).max_lat,
    {
        let w = space.read_word(bus, device, function, 15);
        ((w >> 24) & 0xff) as u8
    }

    /// The full configuration header of the named function, read field by
    /// field.
    pub fn read_pci_configration(&self, space: &ConfigSpace, bus: u8, device: u8, function: u8) -> (r: PCIConfiguration)
        requires
            space.wf(),
            device < 32,
            function < 8,
        ensures
            r == spec_config_of(*space, bus as int, device as int, function as int),
    {
        PCIConfiguration {
            vendor_id: self.read_vendor_id(space, bus, device, function),
            device_id: self.read_device_id(space, bus, device, function),
            command: self.read_command(space, bus, device, function),
            status: self.read_status(space, bus, device, function),
            revision_id: self.read_revision_id(space, bus, device, function),
            interface: self.read_interface(space, bus, device, function),
            sub_class: self.read_sub_class(space, bus, device, function),
            base_class: self.read_base_class(space, bus, device, function),
            chacheline_size: self.read_cacheline_size(space, bus, device, function),
            latency_timer: self.read_latency_timer(space, bus, device, function),
            header_type: self.read_header_type(space, bus, device, function),
            bist: self.read_bist(space, bus, device, function),
            base_address_register0: self.read_base_address_register_0(space, bus, device, function),
            base_address_register1: self.read_base_address_register_1(space, bus, device, function),
            base_address_register2: self.read_base_address_register_2(space, bus, device, function),
            base_address_register3: self.read_base_address_register_3(space, bus, device, function),
            base_address_register4: self.read_base_address_register_4(space, bus, device, function),
            base_address_register5: self.read_base_address_register_5(space, bus, device, function),
            cardbus_cis_pointer: self.read_cardbus_cis_pointer(space, bus, device, function),
            subsystem_vendor_id: self.read_subsystem_vendor_id(space, bus, device, function),
            subsystem_id: self.read_subsystem_id(space, bus, device, function),
            expansion_rom_base_address: self.read_expansion_rom_base_address(space, bus, device, function),
            capabilities_pointer: self.read_capabilities_pointer(space, bus, device, function),
            interrupt_line: self.read_interruput_line(space, bus, device, function),
            interrupt_pin: self.read_interruput_pin(space, bus, device, function),
            min_gnt: self.read_min_gnt(space, bus, device, function),
            max_lat: self.read_max_lat(space, bus, device, function),
        }
    }

    /// Run the whole enumeration pass over the snapshot.
    pub fn initialize(&mut self, space: &ConfigSpace) -> (r: Result<(), PCIScanError>)
        requires
            old(self).wf(),
            space.wf(),
        ensures
            final(self).wf(),
            ({
                let o = spec_scan_all_bus(*space, old(self).devices@, PCI_SCAN_DEPTH as nat);
                final(self).devices@ == o.table && r == spec_outcome_result(o.err)
            }),
    {
        self.scan_all_bus(space)
    }

    /// Scan the whole bus space, as `spec_scan_all_bus` describes.
    pub fn scan_all_bus(&mut self, space: &ConfigSpace) -> (r: Result<(), PCIScanError>)
        requires
            old(self).wf(),
            space.wf(),
        ensures
            final(self).wf(),
            ({
                let o = spec_scan_all_bus(*space, old(self).devices@, PCI_SCAN_DEPTH as nat);
                final(self).devices@ == o.table && r == spec_outcome_result(o.err)
            }),
    {
        if self.read_pci_configration(space, 0, 0, 0).is_single_function_device() {
            return self.scan_bus_depth(space, 0, PCI_SCAN_DEPTH);
        }
        let ghost total = spec_scan_host_functions(*space, self.devices@, 0, PCI_SCAN_DEPTH as nat);
        let mut f: u8 = 0;
        while f < 8
            invariant
                self.wf(),
                space.wf(),
                f <= 8,
                !spec_single_function(*space, 0, 0),
                total == spec_scan_all_bus(*space, old(self).devices@, PCI_SCAN_DEPTH as nat),
                total == spec_scan_host_functions(*space, self.devices@, f as int,
                    PCI_SCAN_DEPTH as nat),
            decreases 8 - f,
        {
            if self.read_vendor_id(space, 0, 0, f) != 0xffff {
                match self.scan_bus_depth(space, f, PCI_SCAN_DEPTH) {
                    Ok(()) => {},
                    Err(e) => {
                        return Err(e);
                    },
                }
            }
            f += 1;
        }
        Ok(())
    }

    /// Scan one bus, as `spec_scan_bus` describes.
    pub fn scan_bus(&mut self, space: &ConfigSpace, bus: u8) -> (r: Result<(), PCIScanError>)
        requires
            old(self).wf(),
            space.wf(),
        ensures
            final(self).wf(),
            ({
                let o = spec_scan_bus(*space, old(self).devices@, bus as int, PCI_SCAN_DEPTH as nat);
                final(self).devices@ == o.table && r == spec_outcome_result(o.err)
            }),
    {
        self.scan_bus_depth(space, bus, PCI_SCAN_DEPTH)
    }

    /// Scan one device, as `spec_scan_device` describes.
    pub fn scan_device(&mut self, space: &ConfigSpace, bus: u8, device: u8) -> (r: Result<(), PCIScanError>)
        requires
            old(self).wf(),
            space.wf(),
            device < 32,
        ensures
            final(self).wf(),
            ({
                let o = spec_scan_device(*space, old(self).devices@, bus as int, device as int,
                    PCI_SCAN_DEPTH as nat);
                final(self).devices@ == o.table && r == spec_outcome_result(o.err)
            }),
    {
        self.scan_device_depth(space, bus, device, PCI_SCAN_DEPTH)
    }

    /// Scan one function, as `spec_scan_function` describes.
    pub fn scan_function(&mut self, space: &ConfigSpace, bus: u8, device: u8, function: u8) -> (r: Result<(), PCIScanError>)
        requires
            old(self).wf(),
            space.wf(),
            device < 32,
            function < 8,
        ensures
            final(self).wf(),
            ({
                let o = spec_scan_function(*space, old(self).devices@, bus as int, device as int,
                    function as int, PCI_SCAN_DEPTH as nat);
                final(self).devices@ == o.table && r == spec_outcome_result(o.err)
            }),
    {
        self.scan_function_depth(space, bus, device, function, PCI_SCAN_DEPTH)
    }

    fn scan_bus_depth(&mut self, space: &ConfigSpace, bus: u8, fuel: usize) -> (r: Result<(), PCIScanError>)
        requires
            old(self).wf(),
            space.wf(),
        ensures
            final(self).wf(),
            ({
                let o = spec_scan_bus(*space, old(self).devices@, bus as int, fuel as nat);
                final(self).devices@ == o.table && r == spec_outcome_result(o.err)
            }),
        decreases fuel, 4int, 0int,
    {
        let ghost total = spec_scan_bus(*space, self.devices@, bus as int, fuel as nat);
        let mut i: u8 = 0;
        while i < 32
            invariant
                self.wf(),
                space.wf(),
                i <= 32,
                total == spec_scan_bus(*space, old(self).devices@, bus as int, fuel as nat),
                total == spec_scan_bus_devices(*space, self.devices@, bus as int, i as int,
                    fuel as nat),
            decreases 32 - i,
        {
            if self.read_vendor_id(space, bus, i, 0) != 0xffff {
                match self.scan_device_depth(space, bus, i, fuel) {
                    Ok(()) => {},
                    Err(e) => {
                        return Err(e);
                    },
                }
            }
            i += 1;
        }
        Ok(())
    }

    fn scan_device_depth(&mut self, space: &ConfigSpace, bus: u8, device: u8, fuel: usize) -> (r: Result<(), PCIScanError>)
        requires
            old(self).wf(),
            space.wf(),
            device < 32,
        ensures
            final(self).wf(),
            ({
                let o = spec_scan_device(*space, old(self).devices@, bus as int, device as int,
                    fuel as nat);
                final(self).devices@ == o.table && r == spec_outcome_result(o.err)
            }),
        decreases fuel, 2int, 0int,
    {
        match self.scan_function_depth(space, bus, device, 0, fuel) {
            Ok(()) => {},
            Err(e) => {
                return Err(e);
            },
        }
        if self.read_pci_configration(space, bus, device, 0).is_single_function_device() {
            return Ok(());
        }
        let ghost total = spec_scan_device(*space, old(self).devices@, bus as int, device as int,
            fuel as nat);
        let mut f: u8 = 1;
        while f < 8
            invariant
                self.wf(),
                space.wf(),
                1 <= f <= 8,
                total == spec_scan_device(*space, old(self).devices@, bus as int, device as int,
                    fuel as nat),
                total == spec_scan_device_functions(*space, self.devices@, bus as int,
                    device as int, f as int, fuel as nat),
                device < 32,
            decreases 8 - f,
        {
            if self.read_vendor_id(space, bus, device, f) != 0xffff {
                match self.scan_function_depth(space, bus, device, f, fuel) {
                    Ok(()) => {},
                    Err(e) => {
                        return Err(e);
                    },
                }
            }
            f += 1;
        }
        Ok(())
    }

    fn scan_function_depth(&mut self, space: &ConfigSpace, bus: u8, device: u8, function: u8, fuel: usize) -> (r: Result<(), PCIScanError>)
        requires
            old(self).wf(),
            space.wf(),
            device < 32,
            function < 8,
        ensures
            final(self).wf(),
            ({
                let o = spec_scan_function(*space, old(self).devices@, bus as int, device as int,
                    function as int, fuel as nat);
                final(self).devices@ == o.table && r == spec_outcome_result(o.err)
            }),
        decreases fuel, 0int, 0int,
    {
        let pci_configuration = self.read_pci_configration(space, bus, device, function);
        let device_type = pci_configuration.return_device_type();
        let record = PCIDevice { bus, device, function, pci_configuration, device_type };
        proof {
            assert(record == spec_device_record(*space, bus as int, device as int, function as int));
        }
        match self.add_device(record) {
            Ok(()) => {},
            Err(e) => {
                return Err(e);
            },
        }
        if pci_configuration.base_class == 0x06 && pci_configuration.sub_class == 0x04 {
            // PCI-to-PCI bridge: recurse into the secondary bus number.
            let bus_num = pci_configuration.base_address_register2;
            let secondary_bus = ((bus_num >> 8) & 0xff) as u8;
            proof {
                assert(((bus_num >> 8) & 0xff) < 256) by (bit_vector);
            }
            if fuel == 0 {
                return Err(PCIScanError::RecursionLimit);
            }
            return self.scan_bus_depth(space, secondary_bus, fuel - 1);
        }
        Ok(())
    }

    /// Append one record to the device table, failing when its capacity is
    /// exhausted.
    fn add_device(&mut self, pci_device: PCIDevice) -> (r: Result<(), PCIScanError>)
        requires
            old(self).wf(),
        ensures
            final(self).wf(),
            old(self).devices@.len() < PCI_MAX_DEVICES ==> r == Ok::<(), PCIScanError>(())
                && final(self).devices@ == old(self).devices@.push(pci_device),
            old(self).devices@.len() >= PCI_MAX_DEVICES ==> r == Err::<(), PCIScanError>(PCIScanError::TableFull)
                && *final(self) == *old(self),
    {
        if self.device_index == PCI_MAX_DEVICES {
            return Err(PCIScanError::TableFull);
        }
        self.devices.push(pci_device);
        self.device_index += 1;
        Ok(())
    }
}

/// A record the scan may append: it names the function it describes, that
/// function is present, and the record is exactly its header and class.
pub open spec fn spec_record_valid(space: ConfigSpace, r: PCIDevice) -> bool {
    &&& r.device < 32
    &&& r.function < 8
    &&& spec_present(space, r.bus as int, r.device as int, r.function as int)
    &&& r == spec_device_record(space, r.bus as int, r.device as int, r.function as int)
}

/// A scan only appends: the old table survives unchanged as a prefix, and
/// everything after it is a valid record of a present function.
pub open spec fn spec_table_extended(space: ConfigSpace, old_table: Seq<PCIDevice>, new_table: Seq<PCIDevice>) -> bool {
    &&& new_table.len() >= old_table.len()
    &&& forall|i: int| 0 <= i < old_table.len() ==> new_table[i] == #[trigger] old_table[i]
    &&& forall|i: int| old_table.len() <= i < new_table.len()
        ==> spec_record_valid(space, #[trigger] new_table[i])
}

/// The table holds, at or after position `lo`, the record of the named
/// function.
pub open spec fn spec_table_has_record(space: ConfigSpace, table: Seq<PCIDevice>, lo: int, bus: int, device: int, function: int) -> bool {
    exists|i: int| lo <= i < table.len()
        && (#[trigger] table[i]) == spec_device_record(space, bus, device, function)
}

/// Appending is transitive.
proof fn lemma_extended_trans(space: ConfigSpace, a: Seq<PCIDevice>, b: Seq<PCIDevice>, c: Seq<PCIDevice>)
    requires
        spec_table_extended(space, a, b),
        spec_table_extended(space, b, c),
    ensures
        spec_table_extended(space, a, c),
{
    assert forall|i: int| 0 <= i < a.len() implies c[i] == #[trigger] a[i] by {
        assert(b[i] == a[i]);
        assert(c[i] == b[i]);
    }
    assert forall|i: int| a.len() <= i < c.len() implies
        spec_record_valid(space, #[trigger] c[i]) by {
        if i < b.len() {
            assert(c[i] == b[i]);
        }
    }
}

/// A record found at or after `lo` is still there after further appends.
proof fn lemma_has_record_extend(space: ConfigSpace, t1: Seq<PCIDevice>, t2: Seq<PCIDevice>, lo: int, bus: int, device: int, function: int)
    requires
        0 <= lo,
        spec_table_extended(space, t1, t2),
        spec_table_has_record(space, t1, lo, bus, device, function),
    ensures
        spec_table_has_record(space, t2, lo, bus, device, function),
{
    let i = choose|i: int| lo <= i < t1.len()
        && (#[trigger] t1[i]) == spec_device_record(space, bus, device, function);
    assert(t2[i] == t1[i]);
}

/// A record found at or after `lo2` is also found at or after any earlier
/// position.
proof fn lemma_has_record_weaken(space: ConfigSpace, table: Seq<PCIDevice>, lo1: int, lo2: int, bus: int, device: int, function: int)
    requires
        lo1 <= lo2,
        spec_table_has_record(space, table, lo2, bus, device, function),
    ensures
        spec_table_has_record(space, table, lo1, bus, device, function),
{
    let i = choose|i: int| lo2 <= i < table.len()
        && (#[trigger] table[i]) == spec_device_record(space, bus, device, function);
    assert(lo1 <= i < table.len() && table[i] == spec_device_record(space, bus, device, function));
}

/// Bits 8-15 of a register word name one of the 256 buses.
proof fn lemma_secondary_bus_range(w: u32)
    ensures
        0 <= ((w >> 8) & 0xff) < 256,
{
    assert(((w >> 8) & 0xff) < 256) by (bit_vector);
}

/// Scanning one function appends its own record first (capacity permitting)
/// and after that only valid records of present functions.
pub proof fn lemma_scan_function_extends(space: ConfigSpace, table: Seq<PCIDevice>, bus: int, device: int, function: int, fuel: nat)
    requires
        0 <= bus < 256,
        0 <= device < 32,
        0 <= function < 8,
        spec_present(space, bus, device, function),
    ensures
        ({
            let o = spec_scan_function(space, table, bus, device, function, fuel);
            &&& spec_table_extended(space, table, o.table)
            &&& table.len() < PCI_MAX_DEVICES ==> o.table.len() > table.len()
                && o.table[table.len() as int] == spec_device_record(space, bus, device, function)
            &&& o.err is None ==> table.len() < PCI_MAX_DEVICES
        }),
    decreases fuel, 0int, 0int,
{
    let o = spec_scan_function(space, table, bus, device, function, fuel);
    if table.len() >= PCI_MAX_DEVICES {
        assert(spec_table_extended(space, table, table));
    } else {
        let rec = spec_device_record(space, bus, device, function);
        let t2 = table.push(rec);
        assert(spec_record_valid(space, rec));
        assert(spec_table_extended(space, table, t2));
        if spec_is_bridge(space, bus, device, function) && fuel > 0 {
            let bus2 = spec_secondary_bus(space, bus, device, function);
            lemma_secondary_bus_range(
                spec_config_of(space, bus, device, function).base_address_register2);
            lemma_scan_bus_extends(space, t2, bus2, (fuel - 1) as nat);
            lemma_extended_trans(space, table, t2, o.table);
            assert(o.table[table.len() as int] == t2[table.len() as int]);
        }
    }
}

/// Probing the higher functions of a multi-function device appends a record
/// for every present one, absent ones skipped, unless an error cuts the
/// probe short.
pub proof fn lemma_scan_device_functions_extends(space: ConfigSpace, table: Seq<PCIDevice>, bus: int, device: int, function: int, fuel: nat)
    requires
        0 <= bus < 256,
        0 <= device < 32,
        1 <= function <= 8,
    ensures
        ({
            let o = spec_scan_device_functions(space, table, bus, device, function, fuel);
            &&& spec_table_extended(space, table, o.table)
            &&& o.err is None ==> forall|f0: int| function <= f0 < 8
                && spec_present(space, bus, device, f0)
                ==> spec_table_has_record(space, o.table, table.len() as int, bus, device, f0)
        }),
    decreases fuel, 1int, 8 - function,
{
    let o = spec_scan_device_functions(space, table, bus, device, function, fuel);
    if function >= 8 {
        assert(spec_table_extended(space, table, table));
    } else if spec_present(space, bus, device, function) {
        lemma_scan_function_extends(space, table, bus, device, function, fuel);
        let r = spec_scan_function(space, table, bus, device, function, fuel);
        if r.err is Some {
        } else {
            lemma_scan_device_functions_extends(space, r.table, bus, device, function + 1, fuel);
            lemma_extended_trans(space, table, r.table, o.table);
            if o.err is None {
                assert forall|f0: int| function <= f0 < 8 && spec_present(space, bus, device, f0)
                    implies spec_table_has_record(space, o.table, table.len() as int, bus,
                        device, f0) by {
                    if f0 == function {
                        assert(r.table[table.len() as int]
                            == spec_device_record(space, bus, device, function));
                        assert(spec_table_has_record(space, r.table, table.len() as int, bus,
                            device, function));
                        lemma_has_record_extend(space, r.table, o.table, table.len() as int,
                            bus, device, function);
                    } else {
                        lemma_has_record_weaken(space, o.table, table.len() as int,
                            r.table.len() as int, bus, device, f0);
                    }
                }
            }
        }
    } else {
        lemma_scan_device_functions_extends(space, table, bus, device, function + 1, fuel);
        assert forall|f0: int| function <= f0 < 8 && spec_present(space, bus, device, f0)
            && o.err is None
            implies spec_table_has_record(space, o.table, table.len() as int, bus, device, f0)
            by {
            assert(f0 != function);
        }
    }
}

/// Scanning a device records function 0 and, when function 0 reports a
/// multi-function header, every present function 1-7 as well; functions
/// whose vendor ID reads absent are skipped, since a scan only ever appends
/// records of present functions.
pub proof fn lemma_scan_device_extends(space: ConfigSpace, table: Seq<PCIDevice>, bus: int, device: int, fuel: nat)
    requires
        0 <= bus < 256,
        0 <= device < 32,
        spec_present(space, bus, device, 0),
    ensures
        ({
            let o = spec_scan_device(space, table, bus, device, fuel);
            &&& spec_table_extended(space, table, o.table)
            &&& o.err is None ==> spec_table_has_record(space, o.table, table.len() as int, bus,
                device, 0)
            &&& o.err is None && !spec_single_function(space, bus, device)
                ==> forall|f0: int| 1 <= f0 < 8 && spec_present(space, bus, device, f0)
                    ==> spec_table_has_record(space, o.table, table.len() as int, bus, device, f0)
            &&& forall|f0: int, i: int|
                #![trigger spec_present(space, bus, device, f0), o.table[i]]
                1 <= f0 < 8 && !spec_present(space, bus, device, f0)
                    && table.len() <= i < o.table.len()
                    ==> !(o.table[i].bus == bus && o.table[i].device == device
                        && o.table[i].function == f0)
        }),
    decreases fuel, 2int, 0int,
{
    let o = spec_scan_device(space, table, bus, device, fuel);
    lemma_scan_function_extends(space, table, bus, device, 0, fuel);
    assert forall|f0: int, i: int|
        1 <= f0 < 8 && !spec_present(space, bus, device, f0)
            && table.len() <= i < o.table.len()
            && spec_table_extended(space, table, o.table)
        implies !(o.table[i].bus == bus && o.table[i].device == device
            && o.table[i].function == f0) by {
        // an appended record describes a present function, so it cannot
        // name an absent one.
        if o.table[i].bus == bus && o.table[i].device == device && o.table[i].function == f0 {
            assert(spec_record_valid(space, o.table[i]));
            assert(spec_present(space, bus, device, f0));
        }
    }
    let r0 = spec_scan_function(space, table, bus, device, 0, fuel);
    if r0.err is Some {
    } else {
        assert(r0.table[table.len() as int] == spec_device_record(space, bus, device, 0));
        assert(spec_table_has_record(space, r0.table, table.len() as int, bus, device, 0));
        if spec_single_function(space, bus, device) {
        } else {
            lemma_scan_device_functions_extends(space, r0.table, bus, device, 1, fuel);
            lemma_extended_trans(space, table, r0.table, o.table);
            lemma_has_record_extend(space, r0.table, o.table, table.len() as int, bus, device, 0);
            if o.err is None {
                assert forall|f0: int| 1 <= f0 < 8 && spec_present(space, bus, device, f0)
                    implies spec_table_has_record(space, o.table, table.len() as int, bus,
                        device, f0) by {
                    lemma_has_record_weaken(space, o.table, table.len() as int,
                        r0.table.len() as int, bus, device, f0);
                }
            }
        }
    }
}

/// Scanning the devices of a bus only appends valid records of present
/// functions.
proof fn lemma_scan_bus_devices_extends(space: ConfigSpace, table: Seq<PCIDevice>, bus: int, device: int, fuel: nat)
    requires
        0 <= bus < 256,
        0 <= device,
    ensures
        spec_table_extended(space, table,
            spec_scan_bus_devices(space, table, bus, device, fuel).table),
    decreases fuel, 3int, 32 - device,
{
    let o = spec_scan_bus_devices(space, table, bus, device, fuel);
    if device >= 32 {
        assert(spec_table_extended(space, table, table));
    } else if spec_present(space, bus, device, 0) {
        lemma_scan_device_extends(space, table, bus, device, fuel);
        let r = spec_scan_device(space, table, bus, device, fuel);
        if r.err is Some {
        } else {
            lemma_scan_bus_devices_extends(space, r.table, bus, device + 1, fuel);
            lemma_extended_trans(space, table, r.table, o.table);
        }
    } else {
        lemma_scan_bus_devices_extends(space, table, bus, device + 1, fuel);
    }
}

/// Scanning a bus only appends valid records of present functions.
pub proof fn lemma_scan_bus_extends(space: ConfigSpace, table: Seq<PCIDevice>, bus: int, fuel: nat)
    requires
        0 <= bus < 256,
    ensures
        spec_table_extended(space, table, spec_scan_bus(space, table, bus, fuel).table),
    decreases fuel, 4int, 0int,
{
    lemma_scan_bus_devices_extends(space, table, bus, 0, fuel);
}

/// Scanning the host-bridge functions only appends valid records of present
/// functions.
proof fn lemma_scan_host_functions_extends(space: ConfigSpace, table: Seq<PCIDevice>, function: int, fuel: nat)
    requires
        0 <= function,
    ensures
        spec_table_extended(space, table,
            spec_scan_host_functions(space, table, function, fuel).table),
    decreases fuel, 5int, 8 - function,
{
    let o = spec_scan_host_functions(space, table, function, fuel);
    if function >= 8 {
        assert(spec_table_extended(space, table, table));
    } else if spec_present(space, 0, 0, function) {
        lemma_scan_bus_extends(space, table, function, fuel);
        let r = spec_scan_bus(space, table, function, fuel);
        if r.err is Some {
        } else {
            lemma_scan_host_functions_extends(space, r.table, function + 1, fuel);
            lemma_extended_trans(space, table, r.table, o.table);
        }
    } else {
        lemma_scan_host_functions_extends(space, table, function + 1, fuel);
    }
}

/// A whole enumeration pass only appends: the table it started from survives
/// as a prefix, and every appended record describes a present function —
/// functions whose vendor ID reads as the absent sentinel never produce a
/// record.
pub proof fn lemma_scan_all_bus_extends(space: ConfigSpace, table: Seq<PCIDevice>, fuel: nat)
    ensures
        spec_table_extended(space, table, spec_scan_all_bus(space, table, fuel).table),
{
    if spec_single_function(space, 0, 0) {
        lemma_scan_bus_extends(space, table, 0, fuel);
    } else {
        lemma_scan_host_functions_extends(space, table, 0, fuel);
    }
}

/// Scanning a bus where every device's function-0 vendor ID reads as the
/// absent sentinel yields no device record and no error.
pub proof fn lemma_scan_bus_absent(space: ConfigSpace, table: Seq<PCIDevice>, bus: int, fuel: nat)
    requires
        forall|d: int| 0 <= d < 32 ==> !spec_present(space, bus, d, 0),
    ensures
        spec_scan_bus(space, table, bus, fuel)
            == (ScanOutcome { table, err: None::<PCIScanError> }),
{
    lemma_scan_bus_devices_absent(space, table, bus, 0, fuel);
}

/// Helper for `lemma_scan_bus_absent`: the device loop appends nothing.
proof fn lemma_scan_bus_devices_absent(space: ConfigSpace, table: Seq<PCIDevice>, bus: int, device: int, fuel: nat)
    requires
        0 <= device,
        forall|d: int| 0 <= d < 32 ==> !spec_present(space, bus, d, 0),
    ensures
        spec_scan_bus_devices(space, table, bus, device, fuel)
            == (ScanOutcome { table, err: None::<PCIScanError> }),
    decreases 32 - device,
{
    if device < 32 {
        lemma_scan_bus_devices_absent(space, table, bus, device + 1, fuel);
    }
}

} // verus!
