//! Browser shell and kei console logic: hashing and handshake for the
//! console gateway, console frames, chrome state, tabs, and raster helpers.

pub mod sha1;
pub mod text;
pub mod websocket;
pub mod vtty;
pub mod chrome;
pub mod tabs;
pub mod input;
pub mod raster;
pub mod favicon;
pub mod pages;
pub mod fbtest;
pub mod find;
pub mod shell;
