//! Schema-driven binding of command-line arguments onto a record.
//!
//! A record is given as it is written out, one flat object with a key for each
//! field. Its keys are the options that the command line can set. The argument
//! vector is scanned once and what it binds is written as a document of the
//! same form, which the caller decodes as the record.
//!
//! - [`schema`] reads the field names off the record.
//! - [`args`] gives each option its short form, finds the field that a short
//!   flag stands for, and binds an argument vector onto a record.
//! - [`arguments`] reads the arguments of a program with a fixed set of
//!   options.
//! - [`scan`] is the token scanner, a small state machine.
//! - [`encode`] writes the bindings of a scan as the document.
//! - [`error`] holds the failures and their messages.
//! - [`info`] and [`show`] make what is shown to the operator: the help, the
//!   version and the messages, as runs of text with their paint.
//! - [`laws`] states and proves what holds of all this for every input.
//! - [`text`] holds the few operations on characters and strings that the rest
//!   is written with.

pub mod args;
pub mod arguments;
pub mod encode;
pub mod error;
pub mod info;
pub mod laws;
pub mod scan;
pub mod schema;
pub mod show;
pub mod text;
