//! Clips of Team Fortress 2 demos: the events of a demo, the clips they make, the scripts that record
//! them, and the files around them.

pub mod clip;
pub mod clock;
pub mod event;
pub mod file_name;
pub mod files;
pub mod grammar;
pub mod grouping;
pub mod json;
pub mod laws;
pub mod lines;
pub mod record;
pub mod replies;
pub mod save;
pub mod script;
pub mod scripts;
pub mod settings;
pub mod text;
