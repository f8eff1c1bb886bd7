[package]
name = "lumi_web"
version = "0.1.0"
edition = "2021"
publish = false

[dependencies]
bip39 = "=2.2.2"
sha2 = "=0.10.9"
uuid = { version = "=1.29.0", features = ["v7"] }
serde = { version = "=1.0.229", features = ["derive"] }
serde_json = "=1.0.154"
gloo-net = "=0.6.0"
js-sys = "=0.3.107"
wasm-bindgen = "=0.2.130"
wasm-bindgen-futures = "=0.4.80"
console_error_panic_hook = "=0.1.7"
dioxus = { version = "=0.6.3", default-features = false, features = ["macro", "html", "hooks", "signals", "launch", "web"] }
web-sys = { version = "=0.3.107", features = ["Window", "Document", "Element", "HtmlElement", "Node", "NodeList", "Event", "CustomEvent", "EventTarget", "Storage", "Selection", "Range", "Blob", "BlobPropertyBag", "Url", "RequestCredentials", "HtmlDocument", "HtmlDialogElement", "Location", "Navigator", "Clipboard", "FormData", "CssStyleDeclaration", "Text", "DocumentFragment", "DomRect"] }
