[package]
name = "force_field"
version = "0.1.0"
edition = "2021"
publish = false

[dependencies]
nalgebra = "*"
nalgebra-glm = "*"
ncollide3d = "*"
nphysics3d = "*"
noise = "*"
rayon = "*"
