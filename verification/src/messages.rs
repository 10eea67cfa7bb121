//! The message log: an append-only list of coloured lines.

use vstd::prelude::*;
use vstd::string::StringExecFns;
use crate::colors::Color;

verus! {

/// The log of a session, oldest message first.
pub type Messages = Vec<(String, Color)>;

/// Number of log lines that fit on the screen.
pub const MSG_HEIGHT: usize = 7;

/// Appending to a message log.
pub trait MessageLog {
    /// The messages as text and colour, oldest first.
    spec fn entries(&self) -> Seq<(Seq<char>, Color)>;

    /// Appends one message; what was logged before stays.
    fn add(&mut self, message: String, color: Color)
        ensures
            final(self).entries() == old(self).entries().push((message@, color)),
    ;
}

impl MessageLog for Vec<(String, Color)> {
    open spec fn entries(&self) -> Seq<(Seq<char>, Color)> {
        self@.map_values(|entry: (String, Color)| (entry.0@, entry.1))
    }

    fn add(&mut self, message: String, color: Color) {
        self.push((message, color));
        assert(final(self).entries() =~= old(self).entries().push((message@, color)));
    }
}

/// The text `before`, then `middle`, then `after`.
pub fn framed(before: &str, middle: &str, after: &str) -> (text: String)
    ensures
        text@ == before@ + middle@ + after@,
{
    let mut text = String::from_str(before);
    text.append(middle);
    text.append(after);
    text
}

/// Where the next message goes when the log is drawn from the newest message
/// upwards: a message `height` lines high, drawn above row `y`, starts at row
/// `y - height`, and is left out with all older ones when that is above the
/// panel.
pub open spec fn spec_message_row(y: int, height: int) -> Option<int> {
    if y - height < 0 {
        None
    } else {
        Some(y - height)
    }
}

/// The row at which a message `height` lines high is drawn when the one after
/// it starts at row `y`, or `None` when the panel has no room left for it.
pub fn message_row(y: i32, height: i32) -> (row: Option<i32>)
    requires
        0 <= y,
        0 <= height,
    ensures
        row is Some <==> spec_message_row(y as int, height as int) is Some,
        row is Some ==> row.unwrap() as int == spec_message_row(y as int, height as int).unwrap(),
{
    let next: i32 = y - height;
    if next < 0 {
        None
    } else {
        Some(next)
    }
}

} // verus!
