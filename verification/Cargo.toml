[package]
name = "mk_screens"
version = "0.1.0"
edition = "2021"
publish = false

[dependencies]
clap = { version = "4", features = ["derive"] }
config = { version = "*", default-features = false, features = ["yaml"] }
directories = "*"
dotenv = "*"
ffmpeg-next = "*"
ffmpeg-sys-next = "*"
filetime = "*"
globset = "*"
image = { version = "*", default-features = false, features = ["jpeg"] }
indicatif = "*"
indicatif-log-bridge = "*"
lazy_static = "*"
log = "*"
mime = "*"
mime_guess = "*"
pretty_env_logger = "*"
rayon = "*"
serde = { version = "*", features = ["derive"] }
serde_yaml = "*"
unicode-width = "*"
