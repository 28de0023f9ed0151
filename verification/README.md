# lib

A verified model of part of the host side of an iOS app runtime: guest
memory, the table of host Objective-C objects, and the libc and framework
entry points that work on them. Every function in `src/` carries a
contract that Verus proves, but one: `is_utf8` in
`sc_network_reachability` calls `core::str::from_utf8` and is trusted to
report exactly what vstd's `valid_utf8` says of the bytes; a reachability
target keeps its host name when the name passes that check, and an empty
name otherwise.

- `mem`: a flat 32-bit guest address space with a page-granular heap.
- `objc`: live objects, their reference counts and host-side state.
- `env`: the state the entry points share.
- `sysctl`: the kernel's table of values, by MIB and by name, and
  `kern.proc`.
- `mmap`: `mmap`, `munmap` and the advisory calls.
- `syscall`: raw Darwin system calls.
- `blocks`: the Blocks runtime's copy and dispose helpers.
- `cf_stream`: `CFReadStream` and `CFWriteStream`, and the events their
  clients are owed.
- `sc_network_reachability`: `SCNetworkReachability`.
- `ca_eagl_layer`: the search for a layer that can be presented directly,
  and its pixel buffer.

`app/` holds what the library hands back to its caller: host I/O, running
guest code, logging, and the floating-point geometry of layers.
