//! A small KVM virtual machine monitor: guest memory, a Linux bzImage
//! loader, port I/O devices and the decisions taken on each vCPU exit.

pub mod memory;
pub mod linux_loader;
pub mod devices;
pub mod vmm;
