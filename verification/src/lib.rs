//! The core of a chat front-end for a text-generation backend.
//!
//! - `generator` is the object that the polling consumer and the generation
//!   worker share: prompts go in under fresh identifiers, fragments of the
//!   reply come out in the order produced, and a request can be stopped or
//!   superseded at any fragment boundary.
//! - `protocol` is the same as a state machine, with the laws that hold of
//!   every sequence of events.
//! - `message` holds what the two parties exchange.
//! - `history` recalls earlier prompts under a filter, on top of the
//!   subsequence match of `matching`.
//! - `app` is the application state that a window drives; `theme` is its
//!   colour scheme.
//! - `text` names the two operations taken from the standard library
//!   unproved.

pub mod app;
pub mod generator;
pub mod history;
pub mod matching;
pub mod message;
pub mod protocol;
pub mod text;
pub mod theme;
