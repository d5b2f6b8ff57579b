//! A fixed-size worker pool, as a verified protocol.
//!
//! The pool owns one dispatch queue and `N` workers. Jobs enter at the back
//! of the queue, workers take messages from its front one at a time, and a
//! shutdown places one terminate signal per worker behind everything that was
//! accepted before it. Every step is a function on the pool's state with an
//! exact contract, so that the thread machinery around it only performs what
//! the pool decided.
//!
//! The crate also holds the small HTTP responder that the pool was built to
//! serve: which page a request gets and what the response bytes are.

pub mod count;
pub mod error;
pub mod http;
pub mod laws;
pub mod message;
pub mod model;
pub mod pool;
pub mod worker;

pub use error::{PoolCreationError, SubmitError, WorkerError};
pub use message::{Action, Message};
pub use pool::ThreadPool;
pub use worker::{Worker, WorkerState};
