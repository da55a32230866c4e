[package]
name = "nix-options-doc"
version = "0.1.0"
edition = "2021"
publish = false

[dependencies]
rnix = "=0.15.1"
rowan = "=0.17.0"
comrak = { version = "=0.59.0", default-features = false }
html-escape = "=0.3.0"
regex = "=1.13.1"
serde = { version = "=1.0.229", features = ["derive"] }
serde_json = "=1.0.154"
textwrap = "=0.16.4"
clap = { version = "=4.6.7", features = ["derive"] }
clap_complete = "=4.6.11"
csv = "=1.4.0"
env_logger = "=0.11.11"
gix = { version = "=0.90.0", default-features = false, features = ["sha1", "blocking-network-client", "worktree-mutation", "interrupt"] }
indicatif = "=0.18.6"
log = "=0.4.35"
rayon = "=1.12.0"
tempfile = "=3.27.0"
thiserror = "=2.0.21"
walkdir = "=2.5.0"
