//! Core of a small RISC-V hypervisor that provides confidential, measured
//! guest VMs on top of the Supervisor Binary Interface (SBI).
//!
//! The crate tracks the owner of every 4 KiB physical frame in a
//! [`page_map::PageMap`], models per-frame ownership as a bounded
//! chain-of-custody stack in [`page_info::PageInfo`], encodes and decodes SBI
//! messages in [`sbi`], and drives the guest lifecycle (create, add pages,
//! finalize, run, remove pages, destroy) in [`vm`].

pub mod avec;
pub mod ids;
pub mod mem_map;
pub mod page_info;
pub mod page_map;
pub mod regs;
pub mod sbi;
pub mod vm;
pub mod vm_pages;
