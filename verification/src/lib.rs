//! Lane routing: which thread or worker lane a bridged call runs on.
//!
//! The crate holds the decisions of a code generator and of its runtime:
//! the generator's checks on lane annotations ([`mir`]), the executor that
//! routes calls to lanes and reports their outcome ([`handler`]), the native
//! lanes ([`thread_pool`]) and the scheduling of the capped pool of web
//! workers ([`worker_pool`]).

pub mod handler;
pub mod mir;
mod pool_queue;
pub mod text;
pub mod text_laws;
pub mod thread_pool;
pub mod worker_pool;
pub mod worker_pool_call_laws;
pub mod worker_pool_laws;
