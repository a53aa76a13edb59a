# Xmouse

Mouse gestures and clipboard history for Windows 10/11, as a library whose
decisions are proved with Verus and a thin program around it.

## Layout

- `src/` — the verified library:
  - `action`, `gesture`: the actions and gesture shapes, their labels, and
    recorded samples (coordinates held as `f32` bit patterns).
  - `actions`: the steps that carry out each action (window activation,
    key chords, notices) and the wait for the copied selection, with the
    clipboard put back after every outcome.
  - `config`: settings, their defaults, validation, gesture bindings, the
    upgrade of older configurations, and the per-gesture sample limit.
  - `hook`: which button a mouse event is about, when a press starts a
    gesture, what a release hands on, and full-screen detection.
  - `storage`: history entries, what is kept, the listing order (pinned
    entries first), which entry eviction removes (never a pinned one),
    eviction limits, search, the entry and usage lines, and content
    digests (SHA-256 through `sha2`).
  - `bitmap`, `picture`, `preview`: clipboard DIBs to and from RGBA,
    PNG decoding and encoding through `image`, and checkerboard previews.
  - `windows_flow`: what the settings window, the tray menu and the
    history popup do with each event — the next state and the steps the
    program carries out (saving, pausing, capture, teaching gestures,
    listing, copying, pinning, deleting and clearing entries, previews).
  - `text`, `fbits`, `search`, `logging`, `window`, `usage`: text search
    and trimming, UTF-16, `f32` bit patterns, the search address
    (percent-encoding through `percent-encoding`), log lines, colours and
    message parameters.
- `tests/` — tests of the library on concrete values.
- `app/` — the Windows program: the mouse hook and stroke recognition
  (floats), the windows, tray icon and gesture trail that perform the
  steps of `windows_flow`, the clipboard listener, the SQLite history with data
  protection, the action worker and the configuration file (serde).
