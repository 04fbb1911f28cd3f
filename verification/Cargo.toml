[package]
name = "shade_runner"
version = "0.1.0"
edition = "2021"
publish = false

[dependencies]
shaderc = "=0.6.3"
spirv-reflect = "=0.2.3"
# vulkano 0.16.0 compiles against this version of its own dependency only.
vk-sys = "=0.5.0"
vulkano = "=0.16.0"
