//! Middleware of a relay between agents and language models: a redaction backend that takes
//! personal data out of payloads, and the replies of middleware callbacks written in JavaScript.
//!
//! Values are plain data. The world outside (the JavaScript engine, serialization, provider codecs,
//! the default masks of detectors) is reached through arguments: a function takes what came back
//! from a call, or a value of a trait that makes it, and says what becomes of it.
//!
//! - [`text`], [`decimal`], [`json`]: characters, positions and JSON values.
//! - [`pointer`], [`place`]: JSON pointers, and the values that they lead to.
//! - [`digest`], [`matcher`], [`mask`]: what is put for a text or for a match in it.
//! - [`config`], [`setup`]: from the configuration to the backend; [`settings`] states what it takes
//!   from each setting.
//! - [`backend`]: the texts of a JSON value under the backend; [`laws`] and [`targets`] state what
//!   holds of every value.
//! - [`serial`], [`request`], [`response`]: values that are sanitized by way of another form.
//! - [`callbacks`], [`events`]: the backend as a callback of the relay; [`outcomes`] states what
//!   becomes of each payload.
//! - [`flow`], [`middleware`], [`callable`], [`sanitizers`], [`intercept`], [`js_codec`],
//!   [`js_events`], [`marks`]: callbacks written in JavaScript; [`replies`] states what each reply
//!   gives.

pub mod backend;
pub mod callable;
pub mod callbacks;
pub mod config;
pub mod decimal;
pub mod digest;
pub mod events;
pub mod flow;
pub mod intercept;
pub mod js_codec;
pub mod js_events;
pub mod json;
pub mod laws;
pub mod marks;
pub mod mask;
pub mod matcher;
pub mod middleware;
pub mod outcomes;
pub mod place;
pub mod pointer;
pub mod replies;
pub mod request;
pub mod response;
pub mod sanitizers;
pub mod serial;
pub mod settings;
pub mod setup;
pub mod targets;
pub mod text;
