//! A fixed-size worker thread pool: a shared FIFO work queue with an
//! explicit closed state, pool construction, job submission, and a
//! teardown protocol under which every submitted job is executed exactly
//! once and every worker is joined.
//!
//! The queue and pool here are the decision core of the pool: what each
//! operation does to the shared state, stated and proved over a
//! mathematical model. The surrounding process — OS threads, blocking,
//! sockets — performs these decisions and supplies the events.

pub mod pool;
pub mod queue;
pub mod request;
pub mod response;
