//! Display engine for a streaming terminal multiplexer of log-like text.
//!
//! Input lines are routed into fixed, non-overlapping screen regions
//! ("spaces"), each armed with its own pattern trigger. A space that sees a
//! matching line starts printing into its region until the region fills;
//! a bounded history of recent lines is replayed whenever a space activates.
//! The engine itself performs no I/O: each step returns the sequence of
//! absolute-addressed terminal actions to perform.

pub mod action;
pub mod engine;
pub mod history;
pub mod render;
pub mod space;
pub mod trigger;
pub mod validate;

pub use action::TermAction;
pub use engine::DisplayEngine;
pub use engine::Options;
pub use history::HistoryBuffer;
pub use render::render_line;
pub use space::SpaceState;
pub use trigger::Trigger;
pub use validate::regex_validator;
pub use validate::u16_validator;
