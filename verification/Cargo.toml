[package]
name = "bump_allocator"
version = "0.1.0"
edition = "2021"
publish = false

[dependencies]
axallocator = "*"
axerrno = "0.1"
axhal = "0.2.2-preview.6"
axtask = "0.2.2-preview.3"
