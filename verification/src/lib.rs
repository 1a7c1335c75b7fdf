//! A serial terminal: port settings, configuration, command-line
//! resolution and the state machine of the terminal user interface.
pub mod text;
pub mod serial;
pub mod scrollback;
pub mod ports;
pub mod config;
pub mod cli;
pub mod input;
pub mod state;
pub mod connection;
pub mod terminal;
pub mod view;
pub mod layout;
pub mod settings;
pub mod keys;
