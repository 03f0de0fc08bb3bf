//! Tails structured application log records and renders them as
//! severity-coloured text.

pub mod calendar;
pub mod color;
pub mod document;
pub mod groups;
pub mod json;
pub mod parser;
pub mod render;
pub mod text;
pub mod window;
