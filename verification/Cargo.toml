[package]
name = "rswinthings"
version = "0.1.0"
edition = "2021"
publish = false

[dependencies]
lru = "*"
hex = "*"
mft = "*"
serde = { version = "*", features = ["derive"] }
serde_json = "*"
winapi = { version = "0.3", features = ["ioapiset", "winioctl", "winnt", "winbase", "errhandlingapi", "fileapi", "handleapi", "minwindef", "winerror"] }
crossbeam = "*"
treediff = "*"
