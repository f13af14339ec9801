# stash

The verified core of a Windows app that suspends and hides every open
window in one click and later brings them all back.

- `src/` is the library, verified with Verus:
  - `text`: character-level text handling (trimming, substring search,
    ASCII case folding, joining, decimal and hexadecimal formatting, path
    file names).
  - `policy`: which windows and processes a stash may touch; how a recorded
    process is recognised again after pid reuse.
  - `store`: the store of stashed windows, draining it, and its
    crash-recovery record form.
  - `stash`: title cleaning, the admission of windows (only an admitted
    candidate can be recorded) and the bookkeeping of one stash pass.
  - `recovery`: the bookkeeping of the restore passes, the report on a
    leftover record, and what a read of the record yields.
  - `process`: outcomes and failure reasons of suspending/resuming.
  - `capture`: which screen is captured (the primary one) and the base64
    payload of its image.
  - `tray`: what the tray menu entries do.
- `app/` is the Tauri program around it: the Win32 and ntdll calls, the
  files, serialisation, the tray and the commands.
- `tests/` runs the library on concrete values.
