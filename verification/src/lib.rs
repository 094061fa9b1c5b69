//! A codec and a validator for OTLP export requests.
//!
//! The requests to export metrics, log records and spans are protobuf
//! messages of a fixed schema. This crate reads them from bytes, writes them
//! back to the same bytes, and checks what the schema itself cannot say:
//! that schema URLs are URLs and that metric names are names.
//!
//! - [`wire`] holds the primitives of the wire format, [`field`] the tagged
//!   fields that a message body is made of, [`member`] the ways in which the
//!   members of a message appear as fields, and [`message`] what all messages
//!   share.
//! - [`opentelemetry`] holds the messages, by family. For each message there
//!   is the value that a program works with, the mathematical value that it
//!   stands for (its view), the definition of its bytes over the view, the
//!   functions that read and write it, and the proofs of what holds of the
//!   two: a message that was written reads back as itself, a member at its
//!   zero value takes no bytes, and a field of no member does no harm.
//! - [`validation`] holds the walk over a message that finds the first rule
//!   that is broken; [`schema_url`] and [`name`] hold the two rules.
//! - [`request`] makes the three export requests from the bytes of a request
//!   body, [`text`] holds what text and byte-string members need, and
//!   [`error`] what can go wrong.
//!
//! A decoded message borrows its text and its byte strings from the input;
//! `owned` gives a copy that does not. Doubles are held as their 64 bits:
//! `f64::to_bits` and `f64::from_bits` lead to and from them.

pub mod error;
pub mod field;
pub mod member;
pub mod message;
pub mod name;
pub mod opentelemetry;
pub mod request;
pub mod schema_url;
pub mod text;
pub mod validation;
pub mod wire;

pub use crate::error::Error;
