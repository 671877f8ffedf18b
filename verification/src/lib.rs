//! A small application core in the style of an effects/continuations
//! architecture: apps decide, shells perform effects, and the outcome of
//! each effect is routed back to the app as an event.

pub mod command;
pub mod continuations;
pub mod http;
pub mod key_value;
pub mod platform;
pub mod time;
pub mod text;
pub mod cat_fact;
pub mod testing;

pub use command::{App, Command, EventConstructorFunction, IntoEventConstructor};
pub use continuations::{ContinuationStore, Request, Response};
