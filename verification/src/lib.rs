//! A small tree-walking evaluator for integer programs, with FIFO channels
//! that let two evaluator runs exchange values.
//!
//! A program is a tree of [`ByteCode`] nodes.  [`evaluate`] walks it against
//! an [`Environment`], which holds the variables of the run and the channels
//! bound to it.  [`spawn`] runs two programs as tasks that share channels.
//!
//! Nothing here waits.  A channel operation that cannot complete is
//! reported (`WouldBlock`), a task stops there, and it is taken up again
//! later: by [`spawn`], which gives the two tasks turns on the calling
//! thread, or by a host that runs each [`Task`] on a thread of its own.
//!
//! What evaluation and scheduling mean is defined in `semantics`, `task`
//! and `spawner`; `laws`, `task_laws`, `progress` and `replay` hold what is
//! proved of them.

pub mod bytecode;
pub mod channel;
pub mod environment;
pub mod file_finder;
pub mod error;
pub mod interpreter;
pub mod laws;
pub mod operator;
pub mod progress;
pub mod replay;
pub mod semantics;
pub mod spawner;
pub mod task;
pub mod task_laws;
pub mod turns;

pub use crate::bytecode::ByteCode;
pub use crate::channel::{new_channel, Channel, MpscChannels};
pub use crate::environment::Environment;
pub use crate::error::{ChannelError, EvalError};
pub use crate::file_finder::FileFinder;
pub use crate::interpreter::{evaluate, ByteCodeInterpreter, DEFAULT_STACK_LIMIT};
pub use crate::operator::Operator;
pub use crate::spawner::{spawn, Channels};
pub use crate::task::{Task, TaskHandle};
pub use crate::turns::Turns;
