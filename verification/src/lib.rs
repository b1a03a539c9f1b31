//! Syntax and theme assets for syntect, with the logic that picks a syntax
//! for a file path and a theme for a name.

pub mod error;
pub mod foreign;
pub mod text;
pub mod decode;
pub mod syntax_set;
pub mod syntax_mapping;
pub mod assets;
pub mod lazy_theme_set;

pub use error::{Error, Result};
