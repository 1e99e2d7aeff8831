# codex_quota

The logic of a Windows tray monitor for the Codex rate-limit quota, written in
Verus. Every function in `src/` carries a contract that Verus proves, except
four small trusted wrappers whose contracts are taken on trust: `String::push`
(`text::push_char`), `Path::file_name` (`updates::path_file_name`), and
chrono's local time of a timestamp and of now (`quota::local_stamp_of_epoch`,
`quota::local_now`).

- `src/text.rs` — character-level string work (trimming, prefixes, case
  folding, decimal numbers) with specifications over `Seq<char>`.
- `src/version.rs` — release tags and asset names, version parts, and the
  "newer than" order (proved a strict total order on part triples).
- `src/release.rs`, `src/updates.rs`, `src/installer_updates.rs` — what an
  update check reports, download file names, the stable entry point of the
  portable build, the desktop-shortcut rule and the updater's command line.
- `src/tray.rs`, `src/menu.rs` — the tray menu's presets and ids, the whole
  context menu as data, the menu handler, the tooltip and the icon colours.
- `src/window.rs` — panel modes and windows, clamping a panel into a monitor's
  work area, where a panel appears, and the click and save bookkeeping.
- `src/quota.rs` — turning the app server's rate limits into the snapshot the
  panel shows, with reset times in local time (through `chrono`).

`tests/` runs the library on concrete values. `app/` is the Tauri program
around it: windows, the tray icon's drawing, files, processes and network.
