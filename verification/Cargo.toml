[package]
name = "vfs_zip"
version = "0.1.0"
edition = "2021"
publish = false

[dependencies]
zip = { version = "*", default-features = false, features = ["deflate", "bzip2"] }
flate2 = "1"
bzip2 = "*"
read_write_at = "*"
