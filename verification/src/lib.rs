//! Interpreter for a component package format: version check, manifest
//! decoding, installation planning, archive unpacking decisions and
//! permission normalisation, each with a machine-checked contract.

pub mod error;
pub mod manifest;
pub mod package;
pub mod path;
pub mod perms;
pub mod platform;
pub mod text;
pub mod unpack;
pub mod unpacker;
