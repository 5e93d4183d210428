//! The state and pixel logic of the kitty graphics protocol for a terminal,
//! with contracts proved by Verus.
#![allow(unused_imports)]

pub mod bookmarks;
pub mod graphics;
pub mod kitty;
pub mod kitty_parser;
pub mod laws;
pub mod term;
pub mod text;
