//! Calls that come over the bridge, and how they are executed.

use vstd::prelude::*;

pub mod executor_laws;
pub mod thread_executor;

pub use thread_executor::{ThreadExecutor, ThreadJob, ThreadRouter};

verus! {

/// Where a call runs.
#[derive(Clone, Copy, Debug, PartialEq, Eq)]
pub enum Thread {
    /// On the main thread.
    Main,
    /// On the worker lane of this name.
    Worker(&'static str),
}

/// How a call is answered.
#[derive(Clone, Copy, Debug, PartialEq, Eq, Structural)]
pub enum FfiCallMode {
    /// With one message on the call's port.
    Normal,
    /// With the value that the call returns.
    Sync,
    /// With messages on the call's port, until it is closed.
    Stream,
}

/// What is known of a call before it runs. `MessagePort` is the platform's type of the ports
/// on which answers are awaited.
#[derive(Clone, Copy, Debug, PartialEq, Eq)]
pub struct TaskInfo<MessagePort> {
    /// The port of the answer; a synchronous call has none.
    pub port: Option<MessagePort>,
    /// The call's name, for messages.
    pub debug_name: &'static str,
    /// How the call is answered.
    pub mode: FfiCallMode,
    /// Where the call runs.
    pub thread: Thread,
}

/// What a task is handed when it runs.
#[derive(Clone, Copy, Debug, PartialEq, Eq, Structural)]
pub struct TaskContext {}

impl TaskContext {
    pub fn new() -> (context: TaskContext)
        ensures
            context == (TaskContext {  }),
    {
        TaskContext {  }
    }
}

/// What an error listener is told.
#[derive(Clone, Copy, Debug, PartialEq, Eq, Structural)]
pub enum HandlerError {
    /// The task returned an error.
    CustomError,
}

/// Sends messages to a port.
#[derive(Clone, Copy, Debug, PartialEq, Eq)]
pub struct Rust2DartSender<MessagePort> {
    /// The port that the messages go to.
    pub port: MessagePort,
}

impl<MessagePort> Rust2DartSender<MessagePort> {
    pub fn new(port: MessagePort) -> (sender: Rust2DartSender<MessagePort>)
        ensures
            sender.port == port,
    {
        Rust2DartSender { port }
    }
}

} // verus!
