[package]
name = "legacy_drm"
version = "0.1.0"
edition = "2021"
publish = false

[dependencies]
drm = "0.3.4"
nix = "0.11"
slog = "2.1"
