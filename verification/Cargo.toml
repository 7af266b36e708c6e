[package]
name = "missioncenter"
version = "0.6.1"
edition = "2021"
publish = false

[dependencies]
serde = { version = "1", features = ["derive"] }
serde_json = "1"
thiserror = "*"
libc = "0.2"
lazy_static = "1"
rayon = "1"
mach2 = "*"
dbus = "*"
dbus-crossroads = "*"
static_assertions = "1"
gtk4 = "*"
libadwaita = "*"
