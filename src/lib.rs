//! Install orchestration for a local tool-version manager: the state kernel
//! (installed-package registry, known-version index, download cache) and the
//! resolve, download, extract, register, shim workflow as a state machine.
pub mod version;
pub mod kernel;
pub mod install;
pub mod store;
pub mod laws;
