//! The logic of a multi-client window switcher.
pub mod ascending;
pub mod boss;
pub mod clock;
pub mod config;
pub mod config_editor;
pub mod config_panel;
pub mod cycle_state;
pub mod daemon;
pub mod evdev_util;
pub mod eve_match;
pub mod json;
pub mod key_codes;
pub mod keyboard_listener;
pub mod mouse_listener;
pub mod name_map;
pub mod numerals;
pub mod overlay;
pub mod paths;
pub mod pointer_nudge;
pub mod preview_common;
pub mod preview_positions;
pub mod preview_windows;
pub mod preview_x11;
pub mod render;
pub mod search;
pub mod telemetry;
pub mod text;
pub mod version_check;
pub mod wayland_backends;
pub mod window_manager;
pub mod windows_helpers;
pub mod windows_input;
pub mod windows_manager;
pub mod xdg_activation;
