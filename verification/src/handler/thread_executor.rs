//! An executor that routes each call to the lane that [`TaskInfo::thread`] names.
//!
//! The executor holds a [`ThreadRouter`] and hands it every call that is not
//! synchronous, as a [`ThreadJob`]. Synchronous calls run inline on the caller, that
//! is on the main thread.
//!
//! Whoever runs a job guards it against panics, performs the actions of
//! [`ThreadExecuteUtils::handle_result`] inside the guard, and asks
//! [`ThreadExecuteUtils::handle_panic`] afterwards.

use super::{HandlerError, Rust2DartSender, TaskContext, TaskInfo, Thread};
use vstd::prelude::*;

verus! {

/// How a lane drives a job.
#[derive(Clone, Copy, Debug, PartialEq, Eq, Structural)]
pub enum JobDrive {
    /// The worker runs the task to its end.
    Inline,
    /// The worker spawns the task's future on its local executor, so that the task
    /// gives way to other jobs of the lane whenever it awaits.
    SpawnLocal,
}

/// A call on its way to a lane.
#[derive(Debug, PartialEq, Eq)]
pub struct ThreadJob<EL, MessagePort, T> {
    /// Who is told of errors.
    pub error_listener: EL,
    /// The port of the answer.
    pub port: MessagePort,
    /// What is to be run.
    pub task: T,
    /// How it is to be run.
    pub drive: JobDrive,
}

/// The lanes that a [`ThreadExecutor`] routes to. Whoever implements it owns the
/// workers and runs jobs of type `J` on them.
pub trait ThreadRouter<J> {
    /// Runs `job` on the lane for `thread`, off the main thread.
    fn execute_on(&self, thread: Thread, job: J);
}

/// What is to be done about the result of a task.
#[derive(Debug, PartialEq, Eq)]
pub enum TaskAction<EL, MessagePort, M> {
    /// The listener is told of an error.
    OnError { listener: EL, error: HandlerError },
    /// The message is sent; where the port is closed, a warning is logged.
    SendOrWarn { sender: Rust2DartSender<MessagePort>, message: M },
}

/// A panic that is to be reported to the listener and on the port.
#[derive(Debug, PartialEq, Eq)]
pub struct PanicReport<EL, MessagePort, E> {
    pub listener: EL,
    pub port: MessagePort,
    pub error: E,
}

/// The answer to a synchronous call.
#[derive(Debug, PartialEq, Eq)]
pub struct SyncReply<EL, M> {
    /// What the caller gets.
    pub message: M,
    /// Who is told of an error first, and of which.
    pub notice: Option<(EL, HandlerError)>,
}

/// The actions that a task's result calls for, in order: an error is reported, and
/// either way the message is sent.
pub open spec fn result_actions<EL, MessagePort, M>(
    ret: Result<M, M>,
    sender: Rust2DartSender<MessagePort>,
    el: EL,
) -> Seq<TaskAction<EL, MessagePort, M>> {
    match ret {
        Ok(message) => seq![TaskAction::SendOrWarn { sender, message }],
        Err(message) => seq![
            TaskAction::OnError { listener: el, error: HandlerError::CustomError },
            TaskAction::SendOrWarn { sender, message },
        ],
    }
}

/// The answer that a synchronous task's result calls for.
pub open spec fn sync_reply<EL, M>(ret: Result<M, M>, el: EL) -> SyncReply<EL, M> {
    match ret {
        Ok(message) => SyncReply { message, notice: None },
        Err(message) => SyncReply { message, notice: Some((el, HandlerError::CustomError)) },
    }
}

/// What a finished job comes to.
pub struct ThreadExecuteUtils;

impl ThreadExecuteUtils {
    /// What is to be done about the result of a task.
    pub fn handle_result<EL, MessagePort, M>(
        ret: Result<M, M>,
        sender: Rust2DartSender<MessagePort>,
        el: EL,
    ) -> (actions: Vec<TaskAction<EL, MessagePort, M>>)
        ensures
            actions@ == result_actions(ret, sender, el),
    {
        let mut actions: Vec<TaskAction<EL, MessagePort, M>> = Vec::new();
        match ret {
            Ok(result) => {
                actions.push(TaskAction::SendOrWarn { sender, message: result });
            },
            Err(error) => {
                actions.push(
                    TaskAction::OnError { listener: el, error: HandlerError::CustomError },
                );
                actions.push(TaskAction::SendOrWarn { sender, message: error });
            },
        }
        actions
    }

    /// What is to be done once the guard around a job gave `guarded`: a panic is
    /// reported, and else nothing is left to do.
    pub fn handle_panic<EL, MessagePort, E>(
        guarded: Result<(), E>,
        el: EL,
        port: MessagePort,
    ) -> (report: Option<PanicReport<EL, MessagePort, E>>)
        ensures
            report == match guarded {
                Ok(_) => None,
                Err(error) => Some(PanicReport { listener: el, port, error }),
            },
    {
        match guarded {
            Ok(_) => None,
            Err(error) => Some(PanicReport { listener: el, port, error }),
        }
    }

    /// The answer to a synchronous call whose task returned `ret`.
    pub fn handle_sync_result<EL, M>(ret: Result<M, M>, el: EL) -> (reply: SyncReply<EL, M>)
        ensures
            reply == sync_reply(ret, el),
    {
        match ret {
            Ok(message) => SyncReply { message, notice: None },
            Err(message) => SyncReply { message, notice: Some((el, HandlerError::CustomError)) },
        }
    }
}

/// Where the result of a job's task goes.
#[derive(Debug, PartialEq, Eq)]
pub struct JobEnd<EL, MessagePort> {
    /// Who is told of errors.
    pub error_listener: EL,
    /// The port of the answer.
    pub port: MessagePort,
}

impl<EL, MessagePort> JobEnd<EL, MessagePort> {
    /// The actions that the result `ret` of the task calls for.
    pub open spec fn actions<M>(self, ret: Result<M, M>) -> Seq<TaskAction<EL, MessagePort, M>> {
        result_actions(ret, Rust2DartSender { port: self.port }, self.error_listener)
    }

    /// What is to be done about the result of the task.
    pub fn finish<M>(self, ret: Result<M, M>) -> (actions: Vec<TaskAction<EL, MessagePort, M>>)
        ensures
            actions@ == self.actions(ret),
    {
        let sender = Rust2DartSender::new(self.port);
        ThreadExecuteUtils::handle_result(ret, sender, self.error_listener)
    }
}

impl<EL, MessagePort, T> ThreadJob<EL, MessagePort, T> {
    /// Where the result of the task goes.
    pub open spec fn end(self) -> JobEnd<EL, MessagePort> {
        JobEnd { error_listener: self.error_listener, port: self.port }
    }

    /// Calls the task. What it gives is the result of an inline job, and the future of a
    /// spawned one; its result then goes to the job's end.
    pub fn start<R>(self) -> (started: (R, JobEnd<EL, MessagePort>)) where
        T: FnOnce(TaskContext) -> R,

        requires
            call_requires(self.task, (TaskContext {  },)),
        ensures
            call_ensures(self.task, (TaskContext {  },), started.0),
            started.1 == self.end(),
    {
        let ThreadJob { error_listener, port, task, .. } = self;
        let given = task(TaskContext::new());
        (given, JobEnd { error_listener, port })
    }

    /// Runs the task of an inline job. The result says what is to be done then.
    pub fn run<M>(self) -> (actions: Vec<TaskAction<EL, MessagePort, M>>) where
        T: FnOnce(TaskContext) -> Result<M, M>,

        requires
            call_requires(self.task, (TaskContext {  },)),
        ensures
            exists|ret: Result<M, M>| #[trigger]
                call_ensures(self.task, (TaskContext {  },), ret) && actions@
                    == self.end().actions(ret),
    {
        let (ret, end) = self.start();
        end.finish(ret)
    }
}

/// Routes calls to the lanes of a router.
///
/// - [`execute_normal`](Self::execute_normal) and
///   [`execute_async`](Self::execute_async) hand a job to the lane of the call's
///   thread.
/// - [`execute_sync`](Self::execute_sync) runs inline on the caller.
pub struct ThreadExecutor<EL, P> {
    error_listener: EL,
    pools: P,
}

impl<EL: Copy, P> ThreadExecutor<EL, P> {
    /// Who is told of errors.
    pub closed spec fn listener(self) -> EL {
        self.error_listener
    }

    /// The lanes that calls are routed to.
    pub closed spec fn router(self) -> P {
        self.pools
    }

    /// The job that a call becomes.
    pub open spec fn job<MessagePort, T>(
        self,
        task_info: TaskInfo<MessagePort>,
        task: T,
        drive: JobDrive,
    ) -> ThreadJob<EL, MessagePort, T> {
        ThreadJob { error_listener: self.listener(), port: task_info.port->0, task, drive }
    }

    /// `reply` is an answer to a synchronous call: what a result of its task calls for.
    pub open spec fn answers<MessagePort, M, F: FnOnce() -> Result<M, M>>(
        self,
        task_info: TaskInfo<MessagePort>,
        sync_task: F,
        reply: SyncReply<EL, M>,
    ) -> bool {
        exists|ret: Result<M, M>| #[trigger]
            call_ensures(sync_task, (), ret) && reply == sync_reply(ret, self.listener())
    }

    pub fn new(error_listener: EL, pools: P) -> (executor: Self)
        ensures
            executor.listener() == error_listener,
            executor.router() == pools,
    {
        ThreadExecutor { error_listener, pools }
    }

    pub fn pools(&self) -> (pools: &P)
        ensures
            *pools == self.router(),
    {
        &self.pools
    }

    /// Routes a call that runs to its end on its lane.
    pub fn execute_normal<MessagePort, T>(&self, task_info: TaskInfo<MessagePort>, task: T) where
        P: ThreadRouter<ThreadJob<EL, MessagePort, T>>,

        requires
            task_info.port is Some,
        ensures
            call_ensures(
                P::execute_on,
                (
                    &self.router(),
                    task_info.thread,
                    self.job(task_info, task, JobDrive::Inline),
                ),
                (),
            ),
    {
        let port = task_info.port.unwrap();
        let job = ThreadJob {
            error_listener: self.error_listener,
            port,
            task,
            drive: JobDrive::Inline,
        };
        self.pools.execute_on(task_info.thread, job);
    }

    /// Runs a call inline, on the thread of the caller. Only calls that touch no state
    /// should be made this way.
    pub fn execute_sync<MessagePort, M, F>(
        &self,
        _task_info: TaskInfo<MessagePort>,
        sync_task: F,
    ) -> (reply: SyncReply<EL, M>) where F: FnOnce() -> Result<M, M>
        requires
            call_requires(sync_task, ()),
        ensures
            self.answers(_task_info, sync_task, reply),
    {
        let ret = sync_task();
        ThreadExecuteUtils::handle_sync_result(ret, self.error_listener)
    }

    /// Routes a call whose task is a future. The lane spawns it, so that it does not
    /// hold the lane while it awaits.
    pub fn execute_async<MessagePort, T>(&self, task_info: TaskInfo<MessagePort>, task: T) where
        P: ThreadRouter<ThreadJob<EL, MessagePort, T>>,

        requires
            task_info.port is Some,
        ensures
            call_ensures(
                P::execute_on,
                (
                    &self.router(),
                    task_info.thread,
                    self.job(task_info, task, JobDrive::SpawnLocal),
                ),
                (),
            ),
    {
        let port = task_info.port.unwrap();
        let job = ThreadJob {
            error_listener: self.error_listener,
            port,
            task,
            drive: JobDrive::SpawnLocal,
        };
        self.pools.execute_on(task_info.thread, job);
    }
}

/// How many of `actions` send a message to `port`.
pub open spec fn messages_sent<EL, MessagePort, M>(
    actions: Seq<TaskAction<EL, MessagePort, M>>,
    port: MessagePort,
) -> nat
    decreases actions.len(),
{
    if actions.len() == 0 {
        0
    } else {
        messages_sent(actions.drop_last(), port) + match actions.last() {
            TaskAction::SendOrWarn { sender, .. } if sender.port == port => 1nat,
            _ => 0nat,
        }
    }
}

/// Whatever a task returns, one message goes to its port, as the last action: what
/// the task returned. The listener is told exactly if that is an error, and before
/// the message is sent.
pub proof fn law_a_result_is_answered_once<EL, MessagePort, M>(
    ret: Result<M, M>,
    port: MessagePort,
    el: EL,
)
    ensures
        ({
            let actions = result_actions(ret, Rust2DartSender { port }, el);
            let message = match ret {
                Ok(message) => message,
                Err(message) => message,
            };
            &&& messages_sent(actions, port) == 1
            &&& actions.last() == TaskAction::<EL, MessagePort, M>::SendOrWarn {
                sender: Rust2DartSender { port },
                message,
            }
            &&& ret is Err <==> actions.contains(
                TaskAction::OnError { listener: el, error: HandlerError::CustomError },
            )
            &&& ret is Err ==> actions[0] == TaskAction::<EL, MessagePort, M>::OnError {
                listener: el,
                error: HandlerError::CustomError,
            }
        }),
{
    reveal_with_fuel(messages_sent, 3);
    let actions = result_actions(ret, Rust2DartSender { port }, el);
    if ret is Err {
        assert(actions.contains(actions[0]));
    }
}

/// A synchronous call and a routed one treat a result alike: the caller gets the same
/// message that would be sent, and the listener is told in the same cases.
pub proof fn law_sync_and_routed_calls_agree<EL, MessagePort, M>(
    ret: Result<M, M>,
    port: MessagePort,
    el: EL,
)
    ensures
        ({
            let actions = result_actions(ret, Rust2DartSender { port }, el);
            let reply = sync_reply(ret, el);
            &&& actions.last() == TaskAction::<EL, MessagePort, M>::SendOrWarn {
                sender: Rust2DartSender { port },
                message: reply.message,
            }
            &&& match reply.notice {
                Some((listener, error)) => actions.len() == 2 && actions[0] == TaskAction::<
                    EL,
                    MessagePort,
                    M,
                >::OnError { listener, error },
                None => actions.len() == 1,
            }
        }),
{
}

/// An asynchronous call differs from a normal one in nothing but how the lane drives
/// it.
pub proof fn law_async_differs_in_drive_only<EL: Copy, P, MessagePort, T>(
    executor: ThreadExecutor<EL, P>,
    task_info: TaskInfo<MessagePort>,
    task: T,
)
    ensures
        executor.job(task_info, task, JobDrive::SpawnLocal) == (ThreadJob {
            drive: JobDrive::SpawnLocal,
            ..executor.job(task_info, task, JobDrive::Inline)
        }),
{
}

/// A call that is routed as a normal one and one that is routed as an asynchronous one call for
/// the same actions, in the same order, on the same result of their tasks: the actions that
/// [`ThreadJob::run`] and [`JobEnd::finish`] give.
pub proof fn law_normal_and_async_calls_agree<EL: Copy, P, MessagePort, T, U, M>(
    executor: ThreadExecutor<EL, P>,
    task_info: TaskInfo<MessagePort>,
    normal_task: T,
    async_task: U,
    ret: Result<M, M>,
)
    ensures
        executor.job(task_info, normal_task, JobDrive::Inline).end().actions(ret) == executor.job(
            task_info,
            async_task,
            JobDrive::SpawnLocal,
        ).end().actions(ret),
        executor.job(task_info, async_task, JobDrive::SpawnLocal).end().actions(ret)
            == result_actions(
            ret,
            Rust2DartSender { port: task_info.port->0 },
            executor.listener(),
        ),
{
}

/// What is known of a synchronous call before it runs has no influence on its answer: two
/// calls with the same task, which gives one result, are answered alike.
pub proof fn law_sync_answer_ignores_the_task_info<
    EL: Copy,
    P,
    MessagePort,
    M,
    F: FnOnce() -> Result<M, M>,
>(
    executor: ThreadExecutor<EL, P>,
    info1: TaskInfo<MessagePort>,
    info2: TaskInfo<MessagePort>,
    sync_task: F,
    reply1: SyncReply<EL, M>,
    reply2: SyncReply<EL, M>,
)
    requires
        forall|ret1: Result<M, M>, ret2: Result<M, M>| #[trigger]
            call_ensures(sync_task, (), ret1) && #[trigger] call_ensures(sync_task, (), ret2)
                ==> ret1 == ret2,
        executor.answers(info1, sync_task, reply1),
        executor.answers(info2, sync_task, reply2),
    ensures
        reply1 == reply2,
{
}

} // verus!
