//! Dialogue for visual novels: markup that styles a line of text run by run, and the
//! engine that reveals the runs one character at a time.
//!
//! - `text`: text as sequences of code points, with `trim`, `find`, `split` and decimal
//!   numbers.
//! - `text_print`: the run, one styled segment of text.
//! - `markup`: the markup of a line and its parser.
//! - `story_base`: the reader's settings, pictures, and the steps of a story.
//! - `story_box`: the engine of a dialogue box.
//! - `story_page`: a page of steps and the place of the one that shows.
//! - `script`: from a script to the source of a story.

pub mod markup;
pub mod script;
pub mod story_base;
pub mod story_box;
pub mod story_page;
pub mod text;
pub mod text_print;
