//! Verified core of an eBPF-backed GDB server: translating GDB remote-protocol
//! signals into host signals and the kill requests that deliver them, planning a
//! multi-threaded resume, serving the SVR4 library list, placing uprobes for
//! software breakpoints, keeping the Host I/O descriptor table, and naming the
//! address the server listens on.
use vstd::prelude::*;

pub mod breakpoints;
pub mod bytes;
pub mod host_io;
pub mod libraries;
pub mod maps;
pub mod resume;
pub mod server;
pub mod signal;

verus! {

} // verus!
