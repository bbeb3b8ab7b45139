//! Core of a terminal directory browser: the navigation and mutation state
//! machine. The library owns the current directory, the sorted listing, the
//! cursor and pagination geometry, the mode transitions between browsing and
//! command entry, and the planning of file mutations. All terminal and
//! filesystem work is left to the surrounding binary, which hands results
//! back as plain values.
pub mod app;
pub mod commands;
pub mod file_ops;
pub mod render;
pub mod text;
