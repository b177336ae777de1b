//! Otk runs a command and shows a shortened form of its output.
//!
//! The library decides; it does no input or output of its own. It chooses the
//! filter for a command (`routing`), writes the line that the shell is to run
//! (`shell`), plans the run (`command`), and settles what is shown of it
//! (`execution`) or of a file (`reading`).

pub mod command;
pub mod execution;
pub mod reading;
pub mod routing;
pub mod shell;
pub mod std_calls;
pub mod text;
