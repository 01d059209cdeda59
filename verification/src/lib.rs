//! Verified core of the BOA session console: keybinding resolution, release
//! version arithmetic, install-method detection, theme selection, settings
//! validation and search, reload-failure bookkeeping, preview-pane selection
//! geometry, and the decisions of the home and settings views.
pub mod text;
pub mod version;
pub mod paths;
pub mod install;
pub mod bindings;
pub mod reload;
pub mod settings;
pub mod themes;
pub mod home;
pub mod watch;
pub mod preview;
pub mod categories;
pub mod list_edit;
pub mod remote;
pub mod settings_keys;
pub mod startup;
pub mod dwell;
pub mod creation;
pub mod rows;
pub mod pins;
pub mod groups;
pub mod save;
pub mod outcomes;
