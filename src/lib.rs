//! A streaming relay core: sanitising and flavouring text fragments that an
//! upstream generator emits, the decisions of the request handler, and the
//! bounded hand-off between the producer and the client-facing consumer.
pub mod handler;
pub mod persona;
pub mod relay;
pub mod sanitize;
pub mod text;
