//! What the lines on the screen mean.
pub mod blocks;
pub mod classifier;
pub mod prompt;
