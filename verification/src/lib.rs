//! Decision logic of the Codex quota tray monitor: version comparison for
//! updates, tray menu model and command dispatch, window placement rules and
//! quota snapshot shaping.
pub mod text;
pub mod version;
pub mod tray;
pub mod menu;
pub mod window;
pub mod release;
pub mod updates;
pub mod installer_updates;
pub mod quota;
