# mstsc-rs

A native Windows RDP client that hosts the system Remote Desktop ActiveX
control (`mstscax.dll`) in a Win32 window. This crate holds its verified
core; the Windows host is a thin application around it.

## Layout

- `src/` — the library, verified with Verus:
  - `text`, `encoding` — characters, trimming, case folding, decimal
    numbers, UTF-8/UTF-16 text;
  - `rdp` — the line-preserving `.rdp` document: parsing, lookup, setting,
    removal, rendering and re-encoding;
  - `config` — the merge of defaults, the `.rdp` file, command-line values,
    `--set` assignments and the connection form into a session;
  - `cli` — the command-line values, `mstsc.exe` slash switches and the
    password source;
  - `control` — every property written to the RDP control before it
    connects;
  - `redirection` — drive, device and camera selector lists;
  - `display` — live display updates on resize and DPI change;
  - `events`, `session` — control events and the main window's decisions.
- `app/` — the executable: argument parsing, file and environment access,
  COM activation of the control, the window and its message loop.
- `tests/` — tests of the library.
