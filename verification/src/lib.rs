//! A verified client-side core for the JSON-RPC 2.0 wire protocol over a
//! line-delimited byte stream.
//!
//! The crate is split into four layers, leaf first:
//! - [`json`]: the value model for JSON documents and a verified serializer;
//! - [`codec`]: the newline framing codec that splits a raw byte stream into
//!   frames and appends terminators on the way out;
//! - [`message`]: the envelope model — requests, responses, notifications and
//!   batches — with the ordered structural decoding rules, including the
//!   asymmetric success/error wire shapes for responses;
//! - [`engine`]: the correlation engine that allocates request ids, tracks
//!   in-flight calls, and routes decoded responses back to their callers.

pub mod codec;
pub mod engine;
pub mod json;
pub mod message;
