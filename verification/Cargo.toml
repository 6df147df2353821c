[package]
name = "tidy_syntax"
version = "0.1.0"
edition = "2021"
publish = false

[dependencies]
ra_ap_syntax = "=0.0.337"
ra_ap_paths = "=0.0.337"
ra_ap_project_model = "=0.0.337"
# Pinned for ra-ap-rustc_lexer, which refuses to compile unless its two
# Unicode tables agree: unicode-properties 0.1.4 is at Unicode 17, and
# unicode-ident moved to 18 in 1.0.26.
unicode-ident = "=1.0.22"
