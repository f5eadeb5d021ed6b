# nvda_rust

The logic of NVDA's native helpers as a Verus library: how the virtual
buffers of Gecko/IAccessible2, WebKit, MSHTML, Adobe Acrobat and Lotus Notes
decide what to render from what an accessibility API reports, text
segmentation and offsets, names for URLs, live regions, table headers,
serial/USB/HID device entries, the screen-curtain check, beep sizing and the
OneCore speech markers. Each public function states its behaviour in
`requires`/`ensures`, and the laws that relate several functions are public
proof functions.

Layout:

- `src/` – the verified library (`nvda_rust`). `src/ia2/` holds the
  IAccessible2 rules; the other modules are named after what they decide.
- `tests/` – tests run against the compiled library.
- `app/` – unverified glue for Windows: SetupAPI, registry, HID and
  Bluetooth calls, GDI capture, WinRT speech, crash dumps, OLE clipboard
  text, the float part of beep generation, and the `nvdaRust` Python
  extension module. It calls into the library for every decision.

Calls into `unicode-segmentation` go through the trusted wrappers in
`src/segmentation.rs`; a few std calls (`String::push`, `char::from_u32`,
`str::get`) are wrapped the same way in `src/strings.rs` and
`src/hwports.rs`.
