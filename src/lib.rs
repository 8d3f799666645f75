//! Parser for the MJML email templating language: a token cursor over the
//! template text, and a recursive-descent parser that builds a typed tree
//! while collecting warnings for attributes it does not know.
pub mod component;
pub mod parser;
pub mod mj_preview;
pub mod mj_hero;
pub mod mjml;
pub mod laws;
mod shift;
mod bounds;
