[package]
name = "elmio_cli"
version = "0.1.0"
edition = "2021"
publish = false

[dependencies]
toml = "*"
gitignored = "*"
sha2 = "*"
data-encoding = "*"
regex = "*"
convert_case = "*"
clap = { version = "*", features = ["derive"] }
notify = "*"
fs_extra = "*"
tempfile = "*"
ureq = "*"
zip-extract = "*"
walkdir = "*"
base64 = "*"
http = "*"
httparse = "*"
mime_guess = "*"
