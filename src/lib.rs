//! Kernel loading for a firmware boot stage: locating the kernel file,
//! reading its program-header table, and planning where each loadable
//! segment goes in physical memory.
pub mod segment;
pub mod walker;
pub mod elf;
pub mod path;
pub mod boot;
pub mod elf_file;
