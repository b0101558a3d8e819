[package]
name = "fh_kiel_ical_splitter"
version = "0.1.0"
edition = "2021"
publish = false

[dependencies]
chrono = "*"
const_format = "*"
ical = { version = "*", features = ["ical", "generator"] }
regex = "*"
reqwest = { version = "*", features = ["blocking"] }
tracing = "*"
tracing-subscriber = "*"
