//! A small console toolkit: five independent routines, each of which
//! produces the lines of text that it shows.
//!
//! * [`sequence`] reports the value for an index of the Fibonacci sequence,
//!   the index fixed in advance or read from a line of text ([`input`]).
//! * [`carol`] writes the twelve verses of a cumulative carol.
//! * [`greeting`] writes one fixed line.
//! * [`countdown`] counts down to 1 and closes with a fixed phrase.
//! * [`bindings`] shows a named value left alone, reassigned in place, and
//!   shadowed by a new binding.
//!
//! Every routine is a function from plain values to lines of text, so that
//! what is shown is stated and proved here, and only the reading and the
//! printing are left to the program around this library. Numbers are written
//! in decimal notation by [`text`].

pub mod bindings;
pub mod carol;
pub mod countdown;
pub mod greeting;
pub mod input;
pub mod sequence;
pub mod text;
