[package]
name = "kg_passgen"
version = "0.1.0"
edition = "2021"
publish = false

[dependencies]
url = "*"
psl = "*"
md5 = "*"
sha2 = "*"
rpassword = "*"
arboard = { version = "*", default-features = false }

[dev-dependencies]
base64 = "*"
