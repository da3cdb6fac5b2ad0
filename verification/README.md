# metrics

System metrics (memory, disks, network interfaces and their traffic, disk
I/O, operating system identity, temperature sensors, graphics adapters and
sockets) for embedding through a C ABI.

The library under `src/` is verified with Verus:

- `refresh` — which caches a refresh flag word names.
- `metrics` — the `sysinfo` caches, the records read from them, and the
  totals summed over interfaces and processes.
- `sys_api` — the `sysinfo` calls, each behind a trusted contract.
- `gpu` — naming AMD devices, the AMD, NVIDIA and PCI fallback adapters, and
  how the three sources combine.
- `proc_net`, `netstat`, `win_net` — the socket tables of Linux, the
  `netstat` listing of macOS, and the rows of the Windows IP helper tables.
- `num`, `text` — reading and writing numbers, and the string operations
  the parsers use, each stated over character sequences.
- `types` — the records and their views.

`app/` holds what Verus does not see: the global caches behind a lock, the
readings that are floating-point values, file and command I/O, the C-ABI
functions and JSON serialisation.
