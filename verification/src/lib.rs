//! Loads a project's analysis configuration from a TOML file found in one of
//! a fixed set of well-known places under the project root.
//!
//! The library does not touch the disk. A caller writes down what it saw
//! there in a [`filesystem::Snapshot`]; [`filesystem::locate_files`] finds
//! the configuration files in it, and [`Config::from_folder`] and
//! [`Config::from_file`] load one. [`Config::from_toml`] decodes the text of
//! a file: the `toml` crate parses it, and every key that a field of the
//! record asks for is read from the parsed document, the list of ignored
//! paths in the tidy form of [`trim::trim_whitespace`]. [`boundary`] holds
//! what an adapter to a host runtime decides.

pub mod error;
pub mod trim;
pub mod document;
pub mod filesystem;
pub mod config;
pub mod boundary;

pub use config::Config;
