//! Locates the debug symbol archive that belongs to a native binary module.
//!
//! The core of the crate is pure: [`pe::parse_module`] reads a module's bytes,
//! finds its debug directory and decodes the embedded debug record into a
//! [`identity::ModuleIdentity`]; [`paths::derive_locator`] turns that identity and
//! the module's own path into the symbol-server lookup key and the local file
//! paths a download/extraction step will use. The surrounding network and
//! filesystem work is left to the embedding program, which consults the
//! decision functions in [`transfer`] before touching the disk.

pub mod errors;
pub mod hex;
pub mod identity;
pub mod paths;
pub mod pe;
pub mod record;
pub mod text;
pub mod transfer;
