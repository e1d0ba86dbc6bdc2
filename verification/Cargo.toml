[package]
name = "cargo-boj"
version = "0.6.0"
edition = "2021"
publish = false

[dependencies]
scraper = "=0.29.0"
similar = "=3.2.1"
bpaf = { version = "=0.9.28", features = ["batteries"] }
console = "=0.16.6"
crossterm = "=0.29.0"
directories = "=6.0.0"
fantoccini = "=0.22.1"
once_cell = "=1.21.4"
reqwest = { version = "=0.13.5", features = ["blocking", "cookies", "form"] }
rpassword = "=7.5.4"
serde = { version = "=1.0.229", features = ["derive"] }
serde_json = "=1.0.154"
tokio = { version = "=1.54.1", features = ["rt-multi-thread", "process", "time"] }
