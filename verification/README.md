# missioncenter

The system-information core of Mission Center's gatherer, written in Verus:
the parsers of what the operating system reports, the decisions taken on it,
and the request protocol between the application and the gatherer, each with
a contract proved by Verus.

- `src/text.rs` — text as `Seq<char>`: trimming, searching, splitting,
  lines, number parsing and formatting, UTF-8 byte offsets, text order.
- `src/mem_info.rs` — `/proc/meminfo`, the memory modules that `udevadm`
  reports, `vm_stat` and `system_profiler` on macOS.
- `src/disk.rs` — `diskutil` and `ioreg` output, disk kinds, capacities,
  the system disk, disk counters.
- `src/processes.rs` — process states, names and arguments from kernel
  buffers, usage counters, the process table, D-Bus process records.
- `src/apps.rs` — processes grouped by application bundle, bundle
  information, the application list sorted by name.
- `src/cpu.rs`, `src/gpu.rs`, `src/fans.rs` — processor, graphics and fan
  information.
- `src/ipc.rs` — request framing, commands, the gatherer's state and settings, the
  client's requests, and the laws that tie client and gatherer together.
- `src/services.rs`, `src/utilities.rs`, `src/dbus_shim.rs`, `src/ui.rs` —
  services (none on macOS), platform utilities, D-Bus argument types, and
  what the user interface shows.

`app/` is the gatherer program around the library: system calls, command
execution, the socket server and the JSON replies.
