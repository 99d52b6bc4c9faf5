//! What the library promises: laws that hold of every input, stated by what comes out rather than by
//! how it is made.

pub mod files;
pub mod grouping;
pub mod json;
pub mod naming;
pub mod record;
pub mod save;
pub mod scripts;
pub mod settings;
pub mod text;
pub mod views;
