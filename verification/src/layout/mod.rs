pub mod assets;
pub mod parse;
