[package]
name = "inject"
version = "0.1.0"
edition = "2021"
publish = false

[dependencies]
proc-macro2 = "1"
quote = "1"
syn = { version = "1", features = ["full"] }
jni = "0.21"
winapi = { version = "0.3", features = ["libloaderapi", "memoryapi", "winnt", "consoleapi", "minwindef"] }
detour = "0.8"
dll-syringe = "0.15"
