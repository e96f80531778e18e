# NUCLEO-H723ZG UDP echo: verified rules

A Verus library with the hardware-independent rules of the NUCLEO-H723ZG
UDP echo / SSH management / firmware-update firmware, and the packet formats
and bookkeeping of its host-side UDP benchmark, each with a proved contract.

## Layout

- `src/` – the verified library
  - `echo`, `network`, `profiling`: UDP echo replies, the link/DHCP
    supervisor, W5500 socket bookkeeping, CPU-load account and the profiling
    wire record
  - `ssh_command`, `shell`: command parsing, public-key gate, line editor and
    command replies of the SSH management shell
  - `update_header`, `digest`, `firmware_update`: the upload header, SHA-256
    through the `sha2` crate, and the upload state machine that stages an
    image in MCUboot's secondary slot and marks it for a trial boot
  - `bench_protocol`, `bench_runner`, `stop_and_wait`, `counters`, `stats`,
    `telemetry`, `cli`: the benchmark datagram format, load/burst/soak
    accounting, stop-and-wait runs, counters, order statistics, profiling
    telemetry decoding and size-list parsing
- `tests/` – tests of the library's public API
- `app/` – the host benchmark program: command line, sockets, threads,
  clocks, JSON/CSV/Markdown output and floating-point figures, built on the
  library
