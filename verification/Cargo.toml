[package]
name = "ale_gui"
version = "0.1.0"
edition = "2021"
publish = false

[dependencies]
cpal = "0.15"
hound = "3.5"
image = { version = "0.25", default-features = false, features = ["jpeg"] }
jni = { version = "0.21", features = ["invocation"] }
ndk-context = "0.1"
oboe = "0.6"
tokio = { version = "1", default-features = false, features = ["sync", "rt"] }
tracing = "0.1"
