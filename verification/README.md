# memory_panel

The logic of a game-memory panel, verified with Verus: value scans and their results,
the saved-address list and its library, pointer paths (stable-pointer search, deep
pointer-map comparison, entity lists), the structure and byte views, the debugger
dialogs that watch what code touches an address, code patches, hotkeys, and the
import of saved rows into a DLL project.

Every function in `src/` carries a `requires`/`ensures` contract that Verus proves.
Where the panel needs the outside world (reading or writing process memory, listing
modules, running a debugger, the clock, floating-point arithmetic), the library takes
the outcome as an argument or returns what to do next, and `app/` does the work.

## Layout

- `src/` — the verified library, one module per part of the panel:
  - numbers, text and addresses: `number`, `text`, `address`, `pointer`, `chain`
  - scanning: `scan`, `scan_start`, `results`, `refresh`, `settings`
  - the saved list and its library: `saved`, `saved_commands`, `selection`, `edit`,
    `address_dialog`, `library`, `library_view`, `hotkeys`, `dll_import`
  - pointer searches: `stable_pointer`, `stable_filter`, `deep_pointer`, `entity`,
    `entity_list`, `probe`, `rtti`, `module_list`
  - views: `view`, `structure`, `memory_view`, `camera`, `disassembler`
  - debugger and code list: `code`, `code_list`, `code_access`, `code_patch`,
    `hit_table`, `watch_events`
  - the panel and the events that change it: `panel`, `panel_events`
- `tests/` — tests run against the compiled library.
- `app/` — ordinary Rust around the library: process-memory drivers over a
  `ProcessMemory` trait, and the floating-point parts (value texts, camera projection).

Verify with Verus on `src/lib.rs`; the tests run with `cargo test`.
