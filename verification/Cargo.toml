[package]
name = "game_tweaks"
version = "0.1.0"
edition = "2021"
publish = false

[dependencies]
anyhow = "1"
hudhook = "*"
memory-rs = "*"
retour = "*"
winapi = { version = "0.3", features = ["errhandlingapi", "handleapi", "minwindef", "processthreadsapi", "sysinfoapi", "tlhelp32", "winnt"] }
