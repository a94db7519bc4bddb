[package]
name = "trifit"
version = "0.1.0"
edition = "2021"
publish = false

[dependencies]
anyhow = "1"
clap = { version = "3.2", features = ["derive"] }
flume = "0.10"
gif = "0.11"
image = "0.24"
itertools = "0.10"
lazysort = "0.2"
log = "0.4"
palette = "0.6"
piston = "0.53"
piston2d-graphics = "0.43"
piston2d-opengl_graphics = "0.82"
pistoncore-glutin_window = "0.70"
pretty_env_logger = "0.4"
rand = "0.8"
resvg = "0.22"
static_assertions = "1"
stati = "0.11.0-beta"
svg = "0.10"
tiny-skia = "0.6"
tokio = { version = "1", features = ["macros", "rt-multi-thread"] }
usvg = "0.22"
