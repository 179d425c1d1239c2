[package]
name = "google_plus_posts_dumper"
version = "0.1.0"
edition = "2021"
publish = false

[dependencies]
chrono = "=0.4.45"
html-escape = "=0.2.15"
html5ever = "=0.39.0"
markup5ever = "=0.39.0"
markup5ever_rcdom = "=0.39.0"
glob = "=0.3.4"
