[package]
name = "benday"
version = "0.1.0"
edition = "2021"
publish = false

[dependencies]
rand = "=0.8.8"
python-parser = "=0.2.0"
wtf8 = "=0.0.3"
fasteval = "=0.2.4"
sdl2 = { version = "=0.38.0", features = ["gfx", "ttf"] }
nalgebra = "=0.35.0"
num-traits = "=0.2.19"
itertools = "=0.15.0"
as-any = "=0.3.2"
