//! Rendering of extended markdown documents into HTML pages.

pub mod text;
pub mod outside;
pub mod symbols;
pub mod render;
pub mod page;
pub mod site;
pub mod dates;
