[package]
name = "mipmap_generator"
version = "0.1.0"
edition = "2021"
publish = false

[dependencies]
image = "=0.25.10"
intel_tex_2 = "=0.5.0"
link-cplusplus = "*"
zstd = "=0.14.0"
