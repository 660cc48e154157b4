[package]
name = "bcachefs_mount"
version = "0.1.0"
edition = "2021"
publish = false

[dependencies]
anyhow = "1"
bitfield = "0.13"
byteorder = "1"
errno = "0.2"
gag = "0.1"
itertools = "0.9"
libc = "0.2"
log = "0.4"
memoffset = "0.5"
rpassword = "5"
udev = "0.4"
uuid = "0.8"
