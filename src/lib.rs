//! Hardware and device discovery: firmware description tables and USB
//! descriptor chains, decoded from untrusted bytes with proved contracts.
pub mod acpi;
pub mod bits;
pub mod bytes;
pub mod enumeration;
pub mod error;
pub mod graphics;
pub mod usb;
