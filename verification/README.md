# multimpaste

A clipboard history for the desktop: it keeps recent clipboard entries, newest
first and without duplicates, shows them in a small picker and pastes the one
picked. The library in `src/` holds the logic, with contracts proved by Verus;
`app/` is the desktop program around it.

| Path | |
|---|---|
| `src/clipboard.rs` | The history (`Clip`) and the watcher's decisions on clipboard changes. |
| `src/text.rs` | One-line previews of entries, entry counts, whitespace. |
| `src/app.rs` | The picker and settings window as a state machine (`MultimPaste`). |
| `src/config.rs` | The settings and their defaults. |
| `src/hotkey.rs` | Reading the global shortcut, and the notices when it cannot be used. |
| `src/icon.rs` | The tray icon's pixels. |
| `app/` | Window drawing (egui), the clipboard thread, the tray, the shortcut, the settings file, the login item. |
