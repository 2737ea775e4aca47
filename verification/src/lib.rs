//! Selection, windowing and text logic of a pinball table browser.
pub mod input;
pub mod list;
pub mod mediascroller;
pub mod table;
pub mod info;
