//! Publication of compiled machine code: laying out an image of function
//! bodies and custom sections, patching its relocations against final
//! addresses, registering unwind information and turning the code part
//! executable under a write-xor-execute discipline.
//!
//! The library computes; the host acts. The library lays the image out for
//! the address at which the host maps it, links it, and says which range
//! has to become executable. The host maps the memory, copies the image and
//! changes the protection, and tells the library how that went. No pointer
//! into the code is handed out before the host has made the code executable.
//!
//! - [`align`], [`layout`]: rounding, and where each segment of an image lies.
//! - [`compilation`], [`module`], [`serialize`]: what a code generator hands over.
//! - [`unwind`]: the registry of unwind information.
//! - [`code_memory`]: the image, its allocation and its publication.
//! - [`link`]: relocations.
//! - [`signature`], [`engine`]: what the artifacts of an engine share.
//! - [`artifact`]: building an artifact from a compiled module.
//! - [`codec`], [`format`], [`frame`]: the bytes that a compiled module is kept as.
//! - [`equivalence`]: a module that is read back is built as it was.
//! - [`target`], [`store`]: the choice of the compiler.

pub mod align;
pub mod artifact;
pub mod bytes;
pub mod code_memory;
pub mod codec;
pub mod compilation;
pub mod engine;
pub mod equivalence;
pub mod error;
pub mod format;
pub mod frame;
mod host;
pub mod layout;
pub mod link;
pub mod module;
pub mod serialize;
pub mod signature;
pub mod store;
pub mod target;
pub mod unwind;
