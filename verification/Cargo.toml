[package]
name = "plinth"
version = "0.1.0"
edition = "2021"
publish = false

[dependencies]
rapidhash = "=3.1.0"
smallvec = "=1.16.4"
bytemuck = { version = "=1.25.2", features = ["derive"] }
guillotiere = "=0.6.2"
glamour = "=0.18.0"
keyboard-types = "=0.8.3"
slotmap = "1"
