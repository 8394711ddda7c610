//! Verified core of a desktop-automation backend: a shell session manager
//! with framed command execution, a screen/input dispatcher with coordinate
//! scaling, and a line-addressed text editor with per-file undo history.
//! All tools share one uniform result record.
use vstd::prelude::*;

pub mod base;
pub mod bash;
pub mod commands;
pub mod computer;
pub mod edit;
pub mod logger;
pub mod text;

pub use base::ToolError;
pub use base::ToolResult;
pub use bash::BashSession;
pub use bash::OutputReader;
pub use bash::SessionState;
pub use commands::BashCommandArgs;
pub use commands::EditCommandArgs;
pub use computer::ComputerAction;
pub use computer::ComputerTool;
pub use computer::Resolution;
pub use computer::ScalingSource;
pub use computer::ScrollDirection;
pub use edit::EditCommand;
pub use edit::EditTool;
pub use logger::get_log_dir;

verus! {

} // verus!
