//! Verified building blocks.
//!
//! - [`chat`]: the core of a multi-client chat server, independent of how
//!   the server is scheduled: sessions, the directory of names, routing,
//!   admission, timeouts, shutdown and message framing.
//! - [`interpret`]: two interpreters for a small register machine.
//! - [`shell`]: the skeleton of a command shell.
//! - [`brainfuck`]: an interpreter for the Brainfuck language.
//! - Small utilities: [`text`], [`strings`], [`split`], [`ticket`],
//!   [`tally`], [`case_insensitive`], [`numbers`], [`range`], [`calc`],
//!   [`patterns`], [`poker`], [`pc`], [`pc_record`], [`ring_buffer`],
//!   [`tree`], [`crypt`], [`file`] and [`access`].
//!
//! Every function comes with a contract that says what it returns and
//! changes. The contracts are proved, with one exception: that
//! `String::push` appends a character is taken on trust (see
//! `text::push_char`).
use vstd::prelude::*;

pub mod access;
pub mod brainfuck;
pub mod calc;
pub mod case_insensitive;
pub mod chat;
pub mod crypt;
pub mod file;
pub mod interpret;
pub mod numbers;
pub mod patterns;
pub mod pc;
pub mod pc_record;
pub mod poker;
pub mod range;
pub mod ring_buffer;
pub mod shell;
pub mod split;
pub mod strings;
pub mod tally;
pub mod text;
pub mod ticket;
pub mod tree;
