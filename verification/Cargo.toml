[package]
name = "glyph_atlas"
version = "0.1.0"
edition = "2021"
publish = false

[dependencies]
freetype-rs = "*"
glow = "*"
glfw = "*"
image = "*"
nalgebra-glm = "*"
raw-window-handle = "*"
winapi = { version = "*", features = ["d3d11", "d3dcommon", "dxgi", "dxgi1_2", "dxgiformat", "dxgitype", "minwindef", "ntdef", "windef", "winerror", "unknwnbase"] }
