# pathwarp

The decision core of PathWarp, a Windows overlay that lets a system Open/Save
file dialog jump to a folder that is open in Explorer, verified with Verus.

- `src/` — the verified library:
  - `controller` / `controller_laws`: the overlay state machine (`step(env, event)`
    returns effects) with its model transition, invariant and proved properties
    (hook off during injection, host kept in sync, debounce and grace rules,
    ESC suppression, docking de-duplication, staying docked after injection).
  - `window`: case-insensitive path filtering and list selection.
  - `text`: character-level helpers (substring search, trimming, lowercase).
  - `logging`: log-level names, the `log_level = "..."` configuration line and
    the order of the sources.
  - `dialog`: injection requests and the choice of filename box and confirm button.
  - `monitor`: file dialog recognition and the tracker behind the monitor loop.
  - `input_hook`: which key presses the keyboard hook intercepts and what they mean.
  - `explorer`: Explorer locations to a sorted, de-duplicated folder list
    (locations whose path could be a bare drive letter are left out).
  - `overlay`: the overlay window's extended styles (re-asserted every frame),
    activation refusal and one-time setup.
- `app/` — the Windows program around it (eframe/egui window, Win32 hooks, UI
  Automation, COM), which performs the effects that the library decides.
- `tests/` — tests of the library.
