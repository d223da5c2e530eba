//! The thumbnail cache of a freedesktop.org desktop: everything about it but the I/O.
pub mod cacher;
pub mod frame;
pub mod layout;
pub mod metadata;
pub mod path;
pub mod png_file;
pub mod relocation;
pub mod removal;
pub mod size;
pub mod text;
pub mod uri;
pub mod walk;
