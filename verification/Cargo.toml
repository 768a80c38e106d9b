[package]
name = "early_kernel"
version = "0.1.0"
edition = "2021"
publish = false

[dependencies]
axallocator = { version = "=0.2.0", default-features = false }
axerrno = "=0.1.2"
memory_addr = "=0.3.2"
page_table_entry = "=0.5.7"
