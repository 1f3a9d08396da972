//! One-time-password credentials in a terminal: the rules of the program, apart from its input
//! and output.
pub mod app;
pub mod candidates;
pub mod codes;
pub mod completion;
pub mod config;
pub mod events;
pub mod keys;
pub mod otpauth;
pub mod outcomes;
pub mod paths;
pub mod prompt;
pub mod screen;
pub mod sources;
pub mod steps;
pub mod store;
pub mod text;
