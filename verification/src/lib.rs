//! The dispatch engine of a companion process that an editor drives over
//! MessagePack-RPC.
//!
//! The editor sends requests, which are answered, and notifications, which
//! are not. Each message names a method; [`method`] says what request a
//! method name stands for. [`request_handler`] holds the engine: handlers
//! of three kinds, registered under their names, and the routing of each
//! message to the handler it names, or to an error that says why there is
//! none. [`registry`] is the map from keys to handlers that the engine keeps
//! for each kind. [`statusline`] is what the status line function works out
//! once the editor has told it the current buffer.
//!
//! The engine does no input or output and starts no task. A session hands it
//! what the peer sent and gets back what to answer; a handler that needs time
//! answers with a pending result, which the engine hands on without looking
//! into it.
//!
//! Values on the wire are those of `rmpv`, and the handle to the peer is that
//! of `rmp_rpc`. [`value`] lists what this crate takes for granted of them.
pub mod method;
pub mod registry;
pub mod request_handler;
pub mod statusline;
pub mod value;
