//! Lookup caches for a desktop-entry editor: icon names resolved to image
//! files, and MIME types resolved to human-readable descriptions.

pub mod text;
pub mod paths;
pub mod index;
pub mod environment;
pub mod icons;
pub mod xml;
pub mod packages;
pub mod aliases;
pub mod mime;
pub mod table;
pub mod desktop;
