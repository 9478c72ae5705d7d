[package]
name = "esri_ascii_grid"
version = "0.1.0"
edition = "2021"
publish = false

[dependencies]
num-traits = "0.2"
ordered-float = "4"
replace_with = "0.1"
thiserror = "1"
