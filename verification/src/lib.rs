//! Launching simulation scripts from `afsim://` links: the parsing of such
//! links, the files and registry values that make the operating system hand
//! them to this program, the launch checks and the state of the window that
//! runs a launch.

pub mod text;
pub mod config;
pub mod params;
pub mod url_scheme;
pub mod paths;
pub mod executor;
pub mod app;
pub mod cli;
pub mod registration;
