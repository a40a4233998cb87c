[package]
name = "starryfuse"
version = "0.1.0"
edition = "2021"
publish = false

[dependencies]
axerrno = "0.2"
axfs-ng-vfs = "0.1"
axfs-ng = "0.3.0-preview.3"
axpoll = "0.1"
axhal = "0.3.0-preview.3"
axlog = "0.3.0-preview.3"
axsync = "0.3.0-preview.3"
axtask = "0.3.0-preview.3"
kspin = "0.1"
ksym = "0.6"
spin = "0.10"
