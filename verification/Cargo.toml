[package]
name = "binaural"
version = "0.1.0"
edition = "2021"
publish = false

[dependencies]
hdf5 = "0.8"
hound = "3.5"
ndarray = "0.15"
plotters = "0.3"
