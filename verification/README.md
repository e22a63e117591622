# efact-printer-agent

A local agent that receives raw ESC/POS print jobs over HTTP and forwards
them to a USB HID thermal printer (or, through the operating system's print
spooler, to a system printer). The logic is written in Verus and proved
against its contracts.

Layout:

- `src/` — the verified library
  - `config.rs` — configuration, defaults, choice among configuration files
  - `printer.rs` — HID printers: which devices count, listing, opening, and
    cutting a job into HID output reports
  - `hid.rs` — the `hidapi` calls, behind trusted wrappers, and the HID
    session that `print` and `list` run on
  - `system_printer.rs` — the spooler commands (`lpstat`/`lp`, PowerShell)
    and how their output is read
  - `server.rs` — the answers of the HTTP endpoints
  - `tray.rs` — tray label, menu, icon and lifecycle decisions
  - `platform.rs` — per-OS folders and programs
  - `text.rs`, `numfmt.rs` — text and number handling used by the above
- `app/` — the program: HTTP server (axum), reading `config.toml`, running
  system commands
- `tests/` — tests of the library
