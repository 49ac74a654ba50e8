//! A command-dispatch engine for command-line tools that fall back into an
//! interactive read-eval-print mode: a tree of named commands, each with its
//! own handler and children, resolves a token sequence to exactly one handler
//! invocation, threading one caller-owned mutable context through every call.
//! Argument parsing, line tokenization and completion-script rendering are
//! done by collaborator crates behind the trusted boundary in `shims`.

pub mod command;
pub mod error;
pub mod parsed;
pub mod repl;
pub mod shell;
pub mod shims;

pub use command::{Cmd, Handler, HandlerKind, NoopHandler, Resolution};
pub use error::Error;
pub use parsed::Matches;
pub use repl::{line_step, ReadEvent, ReplStep};
pub use shell::ShellKind;
