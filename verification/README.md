# gksrmf

A Windows tray application with an editor window that turns the physical keys
of an English keyboard into Hangul as they are typed (two-set layout:
`gksrmf` → `한글`).

- `src/` — the library, verified with Verus:
  - `hangul_engine` — the composition automaton, `convert_eng_to_kor`, and
    `HangulComposer`, which hands out committed text and keeps only the keys of
    the syllable being composed; with proofs that committing never changes the
    final text and that characters other than layout keys are kept as they are.
  - `edit_session` — key presses in the edit control, answered with the edits
    to make; Ctrl+Backspace word deletion; window-message decoding.
  - `wide_text` — UTF-16 encoding, `White_Space`, registry string bytes.
  - `config_store`, `startup_registry`, `editor_window`, `tray_manager` —
    settings, start-up registration, control layout, tray theme and events.
- `app/` — the Win32 program: windows, message loop, registry, fonts,
  `config.json` reading and writing (serde).
- `tests/` — tests of the library.
