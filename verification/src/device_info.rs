//! The PCI class-code taxonomy: a closed classification derived from the
//! three numeric class fields of a device's configuration header.

use vstd::prelude::*;

verus! {

/// Top level of the taxonomy, keyed by the header's base-class field.
#[derive(Debug, Copy, Clone, Eq, PartialEq, Structural)]
pub enum PCIClassCode {
    Unclassified(Unclassified),
    MassStorageController(MassStorageController),
    NetworkController(NetworkController),
    DisplayController(DisplayController),
    MultimediaController(MultimediaController),
    MemoryController(MemoryController),
    Bridge(Bridge),
    SimpleCommunicationController(SimpleCommunicationController),
    BaseSystemPeripheral(BaseSystemPeripheral),
    InputDeviceController(InputDeviceController),
    DockingStation(DockingStation),
    Processor(PCISubClassProcessor),
    SerialBusController(SerialBusController),
    WirelessController(PCISubClassWirelessController),
    IntelligentController(PCISubClassIntelligentController),
    SatelliteCommunicationController(SatelliteCommunicationController),
    EncryptionController(EncryptionController),
    SignalProcessingController(SignalProcessingController),
    ProcessingAccelerator,
    NonEssentialInstrumentation,
    Reserved0x3F,
    CoProcessor,
    Reserved0xFE,
    UnassignedClass,
    /// A `(base class, subclass, interface)` combination the taxonomy does
    /// not recognize, kept so enumeration degrades gracefully on
    /// unanticipated hardware.
    Unknown(u8, u8, u8),
}

#[derive(Debug, Copy, Clone, Eq, PartialEq, Structural)]
pub enum Unclassified {
    NonVGACompatibleUnclassifiedDevice,
    VGACompatibleUnclassifiedDevice,
}

#[derive(Debug, Copy, Clone, Eq, PartialEq, Structural)]
pub enum MassStorageController {
    SCSIBusController,
    IDEController,
    FloppyDiskController,
    IPIBusController,
    RAIDController,
    ATAController,
    SerialATAController,
    SerialAttachedSCSIController,
    NonVolatileMemoryController,
    Other,
}

#[derive(Debug, Copy, Clone, Eq, PartialEq, Structural)]
pub enum NetworkController {
    EthernetController,
    TokenRingController,
    FDDIController,
    ATMController,
    ISDNController,
    WorldFipController,
    PICMG214MultiComputingController,
    InfinibandController,
    FabricController,
    Other,
}

#[derive(Debug, Copy, Clone, Eq, PartialEq, Structural)]
pub enum DisplayController {
    VGACompatibleController,
    XGAController,
    _3DController,
    Other,
}

#[derive(Debug, Copy, Clone, Eq, PartialEq, Structural)]
pub enum MultimediaController {
    MultimediaVideoController,
    MultimediaAudioController,
    ComputerTelephonyDevice,
    AudioDevice,
    Other,
}

#[derive(Debug, Copy, Clone, Eq, PartialEq, Structural)]
pub enum MemoryController {
    RAMController,
    FlashController,
    Other,
}

#[derive(Debug, Copy, Clone, Eq, PartialEq, Structural)]
pub enum Bridge {
    HostBridge,
    ISABridge,
    EISABridge,
    MCABridge,
    PCItoPCIBridge1,
    PCMCIABridge,
    NuBusBridge,
    CardBusBridge,
    RACEwayBridge,
    PCItoPCIBridge2,
    InfiniBandtoPCIHostBridge,
    Other,
}

#[derive(Debug, Copy, Clone, Eq, PartialEq, Structural)]
pub enum SimpleCommunicationController {
    SerialController,
    ParallelController,
    MultiportSerialController,
    Modem,
    IEEE48812Controller,
    SmartCardController,
    Other,
}

#[derive(Debug, Copy, Clone, Eq, PartialEq, Structural)]
pub enum BaseSystemPeripheral {
    PIC,
    DMAConrtoller,
    Timer,
    RTCController,
    PCIHotPlugController,
    SDHostController,
    IOMMU,
    Other,
}

#[derive(Debug, Copy, Clone, Eq, PartialEq, Structural)]
pub enum InputDeviceController {
    KeyboardController,
    DigitizerPen,
    MouseController,
    ScannerController,
    GameportController,
    Other,
}

#[derive(Debug, Copy, Clone, Eq, PartialEq, Structural)]
pub enum DockingStation {
    Generic,
    Other,
}

#[allow(non_camel_case_types)]
#[derive(Debug, Copy, Clone, Eq, PartialEq, Structural)]
pub enum PCISubClassProcessor {
    _386,
    _486,
    Pentium,
    PentiumPro,
    Alpha,
    PowerPC,
    MIPS,
    CoProcessor,
    Other,
}

#[derive(Debug, Copy, Clone, Eq, PartialEq, Structural)]
pub enum SerialBusController {
    FireWireController,
    ACCESSBusController,
    SSA,
    USBController(USBController),
    FibreChannel,
    SMBusController,
    InfiniBandController,
    IPMIInterface,
    SERCOSInterface,
    CANbusController,
    Other,
}

#[allow(non_camel_case_types)]
#[derive(Debug, Copy, Clone, Eq, PartialEq, Structural)]
pub enum PCISubClassWirelessController {
    iRDACompatibleController,
    ConsumerIRController,
    RFController,
    BluetoothController,
    BroadbandController,
    EthernetController8021a,
    EthernetController8021b,
    Other,
}

#[derive(Debug, Copy, Clone, Eq, PartialEq, Structural)]
pub enum PCISubClassIntelligentController {
    I20,
}

#[derive(Debug, Copy, Clone, Eq, PartialEq, Structural)]
pub enum SatelliteCommunicationController {
    SatelliteTVController,
    SatelliteAudioController,
    SatelliteVoiceController,
    SatelliteDataController,
}

#[derive(Debug, Copy, Clone, Eq, PartialEq, Structural)]
pub enum EncryptionController {
    NetworkAndComputingEncryptionDecryption,
    EntertainmentEncryptionDecryption,
    Other,
}

#[derive(Debug, Copy, Clone, Eq, PartialEq, Structural)]
pub enum SignalProcessingController {
    DPIOModules,
    PerformanceCounters,
    CommunicationSynchronizer,
    SignalProcessingManagement,
    Other,
}

#[derive(Debug, Copy, Clone, Eq, PartialEq, Structural)]
pub enum USBController {
    UHCIController,
    OHCIController,
    EHCIController,
    XHCIController,
    Unspecified,
    USBDevice,
}

} // verus!
