# MonitorHop (verified core)

MonitorHop switches a monitor's input over DDC/CI when a USB device (a USB
switch, a keyboard receiver) moves between computers. This crate is its
core, written in Verus. The functions in `src/` carry contracts that Verus
proves, except a few small wrappers around std, `serde_json` and `anyhow`
calls (marked `external_body`), whose contracts are trusted. The backend
traits (`DdcBackend`, `PowerFallback`, `MonitorReader`) carry no contracts
of their own: what the switching functions state about them is what each
call returned, in terms of the trait methods' own postconditions.

- `src/capabilities.rs` — reading input-select values out of a DDC/CI
  capabilities reply.
- `src/config.rs` — the configuration, input sources and their text forms,
  with the write/read round trip proved.
- `src/monitor_map.rs`, `src/orchestrator.rs` — which switch an event asks
  for, and the write / power-fallback / retry sequence of a switch.
- `src/ddc.rs`, `src/power.rs`, `src/retry.rs` — the backend traits, the
  NVAPI helper's arguments, display selection, retrying.
- `src/trigger.rs`, `src/tray_menu.rs`, `src/device_database.rs` — USB
  device ids and change events (gained and lost alternate), tray menu ids,
  the device-name lookup.
- `src/pipeline_start.rs` — what saving a configuration starts.
- `src/text.rs` — characters, trimming, lowercasing, number parsing and
  rendering shared by the above.

`app/` is the daemon program: platform backends (NVAPI helper, `ddc-hi`,
libusb/Win32 hotplug, display power), file I/O and the event loop.
