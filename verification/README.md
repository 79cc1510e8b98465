# edbgserver

A GDB remote server for Linux processes traced with eBPF uprobes.

- `src/` is the verified library (Verus): signal translation and the kill requests that deliver them
  (`signal`), the multi-threaded resume plan (`resume`), the SVR4 library list
  (`libraries`), uprobe placement and saved breakpoint bytes (`breakpoints`),
  the Host I/O descriptor table (`host_io`), and the listening address (`server`).
- `app/` is the program around it: command line, eBPF loading, the TCP listener,
  the `kill` calls that send signals, and the reads of `/proc` and of the host
  file system.
- `tests/` runs the library on concrete inputs.
