//! The read loop: what follows each read from the serial link.

use crate::classify::Context;
use crate::line::{format_line, line_of, painted_from};
use vstd::prelude::*;

verus! {

/// What one read from the serial link gave.
#[derive(Debug, PartialEq, Eq)]
pub enum Event {
    /// A line of text, without its newline.
    Line(String),
    /// The read failed: it timed out, or what came was no text.
    ReadFailed,
    /// The link is closed.
    Closed,
}

/// What the read loop does next.
#[derive(Debug, PartialEq, Eq)]
pub enum Action {
    /// Write this text and read on.
    Print(String),
    /// Write nothing and read on.
    Skip,
    /// Leave the loop.
    Stop,
}

/// Decides what follows a read: a line is formatted and written, a failed
/// read is passed over, and the loop ends when the link is closed.
pub fn tail_step(event: &Event, context: &Context) -> (action: Action)
    ensures
        match event {
            Event::Line(line) => action matches Action::Print(out) && exists|pieces: Seq<Seq<char>>|
                painted_from(pieces, line@, context.pattern()) && out@ == #[trigger] line_of(pieces),
            Event::ReadFailed => action is Skip,
            Event::Closed => action is Stop,
        },
{
    match event {
        Event::Line(line) => Action::Print(format_line(line.as_str(), context)),
        Event::ReadFailed => Action::Skip,
        Event::Closed => Action::Stop,
    }
}

} // verus!
