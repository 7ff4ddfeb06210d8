//! What holds of every drawing.

pub mod arcs;
pub mod blocks;
pub mod code_points;
pub mod extent;
pub mod motion;
pub mod pictures;
pub mod seams;
pub mod strokes;
