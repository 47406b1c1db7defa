//! Decision logic of an HTTP reachability agent: it takes check requests from a
//! message queue, turns check results into labelled metric points, flushes them
//! in batches and acknowledges each queue message once its result was handled.
pub mod check;
pub mod dispatch;
pub mod flush;
pub mod labels;
pub mod model;
pub mod translate;
pub mod unify;
