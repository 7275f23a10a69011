[package]
name = "boa_cat"
version = "0.1.0"
edition = "2021"
publish = false

[dependencies]
comp-cat-rs = "*"
ecma-lex-cat = "*"
ecma-parse-cat = "*"
ecma-syntax-cat = "*"
