//! The lock file of a hive: building `hive-lock.toml` from evaluated NixOS
//! configurations, merging it with a template, and looking derivations up in it.
//!
//! `toml_lock` holds the data. `generate` is the course of the generator; its
//! phases rest on `discover`, `evaluate`, `assemble` and `merge`, and `report`
//! writes the lines that it prints. `lock_file` reads derivations back.
//! `outside` holds the calls into other crates.

pub mod assemble;
pub mod command;
pub mod discover;
pub mod error;
pub mod evaluate;
pub mod generate;
pub mod header;
pub mod lock_file;
pub mod merge;
pub mod name_map;
pub mod order;
pub mod outside;
pub mod report;
pub mod text;
pub mod toml_lock;
