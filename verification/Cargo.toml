[package]
name = "check_config"
version = "0.1.0"
edition = "2021"
publish = false

[dependencies]
regex = "1"
similar = "2"
url = "2"
toml_edit = "*"
serde = "1"
serde_json = "1"
serde_yaml_ng = "*"
clap = { version = "4", features = ["derive", "env"] }
clap-verbosity-flag = "*"
env_logger = "*"
log = "0.4"
dirs = "*"
git2 = { version = "*", default-features = false }
reqwest = { version = "0.12", default-features = false, features = ["blocking", "rustls-tls"] }
tar = "0.4"
flate2 = "1"
zip = { version = "*", default-features = false, features = ["deflate"] }
thiserror = "*"
derive_more = { version = "*", features = ["display", "from", "as_ref"] }
