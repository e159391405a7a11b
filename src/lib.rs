//! Checks locally installed foreign packages against a remote package index.
pub mod compare;
pub mod display;
pub mod inventory;
pub mod level;
pub mod text;
