[package]
name = "mandelbrot"
version = "0.1.0"
edition = "2021"
publish = false

[dependencies]
bytemuck = "=1.25.2"
crossbeam = "=0.8.5"
image = { version = "=0.25.10", default-features = false, features = ["png"] }
num = "=0.4.3"
regex = "=1.13.1"
text-colorizer = "=1.0.0"
