[package]
name = "ts_erase"
version = "0.1.0"
edition = "2021"
publish = false

[dependencies]
anyhow = "=1.0.104"
biome_js_parser = "=0.5.7"
biome_js_syntax = "=0.5.7"
biome_rowan = "=0.5.7"
itertools = "=0.15.0"
rustc-hash = "=2.1.3"
# The library calls none of the crates below. biome_js_parser and
# biome_js_syntax 0.5.7 depend on them and do not compile with their 0.5.8
# releases, which a resolver would pick; naming them holds them at 0.5.7.
biome_console = "=0.5.7"
biome_diagnostics = "=0.5.7"
biome_parser = "=0.5.7"
biome_text_edit = "=0.5.7"
biome_text_size = "=0.5.7"
biome_unicode_table = "=0.5.7"
