//! Verified core of the Quantum launcher's infrastructure providers.
pub mod text;
pub mod json;
pub mod error;
pub mod audio;
pub mod pactl;
pub mod bluetooth;
pub mod bluez_stream;
pub mod brightness;
pub mod proc_stats;
pub mod network;
pub mod network_state;
pub mod wifi_scan;
pub mod terse_escape;
pub mod wifi;
pub mod system_tray;
pub mod clipboard_store;
pub mod clipboard;
pub mod calc;
pub mod calc_rewrite_law;
pub mod desktop_apps;
pub mod timer;
pub mod shell;
pub mod keyed;
pub mod hyprland;
pub mod notifications;
pub mod app_usage;
pub mod audio_devices;
pub mod registry;
pub mod emoji;
pub mod plugin_script;
pub mod declarative_shell;
pub mod system_power;
pub mod tray_menu;
pub mod tray_item;
pub mod query_laws;
pub mod wifi_details_law;
