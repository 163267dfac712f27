//! A small publish/subscribe daemon core: resolved configuration, a broker
//! connection manager with a topic dispatch table, a supervisor for the
//! line-by-line output of a spawned child process, and the state machine of
//! the event loop that arbitrates between broker events, supervisor
//! completions and the shutdown signal.

pub mod config;
pub mod mqtt_client;
pub mod supervisor;
pub mod daemon;
