//! The deterministic core of a rhythm-game runtime.
//!
//! A chart describes judgement lines that move, notes that ride on them, and
//! the events that drive both. This crate holds the state of a chart in play
//! and decides how it changes: which event applies to a line at a moment, how
//! a note is judged against the touches, what the combo is, and which bytes
//! tell a renderer what to draw.
//!
//! The crate does no floating-point arithmetic. Real numbers are carried by
//! their bit patterns and compared by them; sums, products and angles are
//! computed by the host and handed in next to the state they describe.

pub mod chart;
pub mod draw;
pub mod engine;
pub mod input;
pub mod loader;
pub mod math;
pub mod renders;
pub mod scalar;
pub mod sorting;
pub mod states;
pub mod states_effect;
pub mod states_initializing;
pub mod states_input;
pub mod states_judge;
pub mod states_lines;
pub mod states_statistics;

pub use crate::chart::Chart;
pub use crate::draw::{load_image_offset, process_state_to_drawable, BufferWithCursor};
pub use crate::engine::Engine;
pub use crate::states::{reset_note_state, tick_all, Metadata};
pub use crate::states_initializing::{clear_states, init_line_states};
pub use crate::states_input::{clear_touch, set_touch_down, set_touch_move, set_touch_up};
