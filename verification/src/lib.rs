//! Race timing for checkpoint courses.
//!
//! A lap is driven through the checkpoints of a course by position samples:
//! `speedometer` holds the session with its lap state machine and its speed
//! estimate, `splits` the best-time records and the rules by which a finished
//! lap is folded into them, `course` and `checkpoint` the course itself.
//! `speedylemon` holds what the program round the session decides, and the
//! lines of its panels; `window`, `stateful_list` and `text` build the
//! blocks of text that are shown.
//!
//! The library reads no clock, no file and no game. Positions and lengths
//! are whole numbers of one unit of length that the caller chooses, times
//! are whole milliseconds on a clock of the caller's, and what is stored on
//! disk comes in and goes out as plain values.

pub mod basictui;
pub mod beetlerank;
pub mod camera;
pub mod checkpoint;
pub mod course;
pub mod guild_wars_handler;
pub mod racer;
pub mod speedometer;
pub mod speedylemon;
pub mod splits;
pub mod stateful_list;
pub mod text;
pub mod track_selector;
pub mod util;
pub mod window;
