//! Drawing shapes and text into a fixed-size character grid.

/// Characters used to outline a screen.
pub mod border;

/// What a screen is, mathematically, and what each drawing operation does to
/// its cells.
pub mod model;

/// The character grid and the drawing operations on it.
pub mod screen;

/// The decisions of the frame loop that animates a screen.
pub mod animation;
