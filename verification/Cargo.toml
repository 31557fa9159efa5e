[package]
name = "ohkami_yew_todo"
version = "0.1.0"
edition = "2021"
publish = false

[dependencies]
console_error_panic_hook = "=0.1.7"
ohkami = "=0.20.0"
reqwest = { version = "=0.12.28", default-features = false, features = ["json"] }
thiserror = "=1.0.69"
wasm-bindgen-futures = "=0.4.79"
web-sys = { version = "=0.3.106", features = ["Window", "Storage", "Crypto", "WorkerGlobalScope", "HtmlInputElement", "HtmlTextAreaElement", "Event", "InputEvent", "EventTarget"] }
worker = { version = "=0.3.4", features = ["d1"] }
yew = { version = "=0.21.0", features = ["csr", "ssr"] }
