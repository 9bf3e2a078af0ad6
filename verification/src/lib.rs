//! Accordo runs services together, in a tabbed view of their terminals or as one
//! merged feed of their logs.
//!
//! This library holds what can be decided without touching the outside world:
//! what a configuration means, what a service's task does next, what becomes of
//! the bytes that services write, what is shown and what input does. Where tasks,
//! processes and terminals come in, a function or a small state machine here is
//! told what happened and answers with what to do.

pub mod actor;
pub mod app;
pub mod cleanup;
pub mod config;
pub mod logs;
pub mod pty;
pub mod reader;
pub mod session;
pub mod supervisor;
pub mod terminal;
pub mod text;
pub mod view;
