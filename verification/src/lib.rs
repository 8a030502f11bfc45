pub mod ansi;
pub mod bridge;
pub mod color;
pub mod console;
pub mod cursor;
pub mod executor;
pub mod font;
pub mod geometry;
pub mod keyboard;
pub mod lookahead;
