//! MonitorHop: switches monitor inputs over DDC/CI when a USB device moves
//! between computers.
pub mod capabilities;
pub mod config;
pub mod ddc;
pub mod device_database;
pub mod errors;
pub mod monitor_map;
pub mod orchestrator;
pub mod pipeline_start;
pub mod power;
pub mod retry;
pub mod text;
pub mod tray_menu;
pub mod trigger;
