[package]
name = "gixkit"
version = "0.1.0"
edition = "2021"
publish = false

[dependencies]
bstr = "=1.1.0"
git-actor = "=0.17.2"
git-hash = "=0.10.3"
git-lock = "=3.0.3"
git-path = "=0.7.2"
git-protocol = { version = "=0.26.4", features = ["blocking-client"] }
git-ref = "=0.24.1"
git-refspec = "=0.7.3"
gix-hash = "=0.14.2"
memchr = "=2.8.3"
unicode-bom = "=2.0.3"
