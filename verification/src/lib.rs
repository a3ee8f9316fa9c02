//! Turns the parts of an EPUB container (its bootstrap file, its package
//! descriptor and its chapter documents) into chapter paths, book metadata and
//! plain-text chapters.

pub mod config;
pub mod document;
pub mod elapsed;
pub mod events;
pub mod lookup;
pub mod markup;
pub mod process;
pub mod text;
pub mod utils;
