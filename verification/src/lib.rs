//! Interactive shell shortcuts: a source lists candidates, a selector lets the
//! user pick one line, an action hands the resulting command to the shell.
//!
//! - [`sources`], [`selectors`] and [`actions`] hold the three kinds of stage.
//!   Each stage here is a plain value that says which subprocess it needs and
//!   reads how that subprocess ended; it starts no process itself. The traits
//!   [`sources::Source`], [`selectors::Selector`] and [`actions::Action`] are
//!   the stages as a widget sees them: whoever runs the subprocesses
//!   implements them.
//! - [`widgets`] binds one stage of each kind and the rule that turns the
//!   selected line into the action's text.
//! - [`process`] holds the values that stand for a subprocess and its end,
//!   [`text`] the operations on lines and fields, [`error`] the error.

pub mod actions;
pub mod error;
pub mod process;
pub mod selectors;
pub mod sources;
pub mod text;
pub mod widgets;
