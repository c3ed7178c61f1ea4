//! The core of a small AArch64 teaching kernel: a size-class heap
//! allocator, a FAT32 reader over a sector cache, the XMODEM transfer
//! protocol, exception decoding, and a round-robin process scheduler.

pub mod allocator;
pub mod bytes;
pub mod cache;
pub mod channel;
pub mod cluster;
pub mod device;
pub mod dir;
pub mod ebpb;
pub mod file;
pub mod gpio;
pub mod io;
pub mod mbr;
pub mod metadata;
pub mod mutex;
pub mod process;
pub mod shell;
pub mod syscall;
pub mod traps;
pub mod vfat;
pub mod xmodem;
