//! Types of the USB host-controller driver, whose logic is not implemented:
//! they shape the interface a future xHCI driver would fill in.

use vstd::prelude::*;

verus! {

/// The USB subsystem handle.
#[derive(Debug, Copy, Clone, PartialEq, Eq, Structural)]
pub struct USB {}

/// Why a USB driver operation failed.
#[derive(Debug, Copy, Clone, PartialEq, Eq, Structural)]
pub enum USBDriverError {
    AnythingErr,
}

/// The xHCI capability register block, as the controller exposes it in
/// memory-mapped I/O space.
#[allow(non_snake_case)]
#[derive(Debug, Copy, Clone, PartialEq, Eq, Structural)]
pub struct CapabilityRegisters {
    pub CapabilityRegistersLength: u8,
    pub Reserved1: u8,
    pub HostControllerInterfaceVersionNumber: u16,
    pub StructuralParameters1: u32,
    pub StructuralParameters2: u32,
    pub StructuralParameters3: u32,
    pub CapabilityParameters1: u32,
    pub DoorbellOffset: u32,
    pub RuntimeRegisterSpaceOffset: u32,
    pub CapabilityParameters2: u32,
    pub VirtualizationBasedTrustedIORegisterSpaceOffset: u32,
}

} // verus!
