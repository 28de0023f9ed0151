//! A verified model of part of an iOS runtime's host side: guest memory, the
//! Objective-C object table, and the libc and framework entry points that
//! work on them.

pub mod ca_eagl_layer;
pub mod cf_stream;
pub mod env;
pub mod mem;
pub mod mmap;
pub mod objc;
pub mod sc_network_reachability;
pub mod sysctl;
pub mod syscall;
pub mod blocks;
