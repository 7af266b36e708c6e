pub mod text;
pub mod disk;
pub mod mem_info;
pub mod ipc;
pub mod processes;
pub mod apps;
pub mod cpu;
pub mod gpu;
pub mod fans;
pub mod services;
pub mod dbus_shim;
pub mod utilities;
pub mod ui;
