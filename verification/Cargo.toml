[package]
name = "leader-stream"
version = "0.1.0"
edition = "2021"
publish = false

[dependencies]
anyhow = "1"
async-stream = "0.3"
axum = "0.7"
bytes = "1"
dotenvy = "0.15"
futures-util = "0.3"
gloo-timers = "0.3"
js-sys = "0.3"
reqwest = { version = "0.12", default-features = false, features = ["json", "rustls-tls"] }
rustls = { version = "0.23", default-features = false, features = ["ring", "std", "tls12"] }
serde = { version = "1", features = ["derive"] }
serde_json = "1"
serde-wasm-bindgen = "0.6"
tokio = { version = "1", features = ["macros", "net", "rt-multi-thread", "signal", "sync", "time"] }
tokio-tungstenite = { version = "0.24", features = ["rustls-tls-webpki-roots"] }
tower-http = { version = "0.6", features = ["fs"] }
tracing = "0.1"
tracing-subscriber = { version = "0.3", features = ["env-filter"] }
url = "2"
wasm-bindgen = "0.2"
wasm-bindgen-futures = "0.4"
web-sys = { version = "0.3", features = ["Clipboard", "CssStyleDeclaration", "Document", "DocumentFragment", "DomTokenList", "Element", "Event", "EventSource", "EventTarget", "HtmlAnchorElement", "HtmlElement", "HtmlInputElement", "HtmlTableRowElement", "HtmlTableSectionElement", "HtmlTextAreaElement", "KeyboardEvent", "Location", "MessageEvent", "Navigator", "Node", "NodeList", "Response", "UrlSearchParams", "Window"] }
