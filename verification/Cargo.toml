[package]
name = "vsel_proof"
version = "0.1.0"
edition = "2021"
publish = false

[dependencies]
sha3 = "0.10"
thiserror = "2"
p3-air = "*"
p3-field = "*"
p3-goldilocks = "*"
p3-matrix = "*"
p3-challenger = "*"
p3-commit = "*"
p3-dft = "*"
p3-fri = "*"
p3-merkle-tree = "*"
p3-symmetric = "*"
p3-uni-stark = "*"
