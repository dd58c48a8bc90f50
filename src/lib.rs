//! A connect-N game engine: board state, win detection and computer opponents.

pub mod append_str;
pub mod args;
pub mod board;
pub mod board_gui;
pub mod bot;
pub mod draw_buffer;
pub mod err;
pub mod moves;
pub mod slice_2d;
pub mod suit;
pub mod vec2;
pub mod vec2_range;
