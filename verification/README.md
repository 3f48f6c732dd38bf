# frb_lanes

Lane routing for calls that cross a language bridge: which thread or worker lane a
call runs on, what becomes of its result, and what the code generator demands of
lane annotations. The library under `src/` is verified with Verus.

- `mir` holds the generator's side. `function` sorts and numbers the parsed functions
  and holds their `#[frb(thread = ...)]` annotations against the embedder's rules;
  `function_laws` states what follows for all functions; `name_order` is the order they
  are sorted in; `optional` parses `Option<T>`.
- `handler` holds the executor that routes a call to the lane of its thread, and decides
  what is sent and reported once a task is done.
- `thread_pool` holds the native lanes: a pool of threads, and the sending side of a lane
  with a thread of its own.
- `worker_pool` schedules jobs on a capped pool of web workers; `worker_pool_laws` states
  what holds in every history of a pool. Any error while the first workers are spawned is
  returned. The cap is kept. Every job is sent, waits or
  failed. The queue itself always keeps its order: jobs leave it as they came. The jobs
  that reach the workers are first in, first out as long as no job that waited was lost
  because it could not be sent to its worker, and no job is handed in while another is
  being sent.
- `text` compares and joins strings.

`app/` is ordinary Rust around the library: the thread and the futures of a lane, the
panic guard around a job, the web workers, and errors for the generator's user.

A few functions of other crates are called through wrappers whose contracts are taken on
trust: sorting and concatenation from `itertools`, `execute` of `threadpool`,
`unbounded_send` of `futures`, and how std prints a list of strings.
