[package]
name = "html_utils"
version = "0.1.0"
edition = "2021"
publish = false

[dependencies]
lol_html = "1"
scraper = "*"
wasm-bindgen = "*"
js-sys = "*"
console_error_panic_hook = "*"
