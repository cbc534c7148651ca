//! The state of the windowed port list: a filter text over the lines that
//! describe the sockets.

use crate::text::{contains_text, text_contains};
use vstd::prelude::*;

verus! {

/// The windowed port list. It shows one line per socket and narrows the
/// lines by a filter text.
pub struct PortManagerApp {
    /// The filter text; empty to show every line.
    pub filter: String,
}

/// Whether the filter text lets a line through: the empty filter lets every
/// line through, any other only the lines in which it occurs as it is
/// written.
pub open spec fn line_shown(filter: Seq<char>, line: Seq<char>) -> bool {
    filter.len() == 0 || contains_text(line, filter)
}

impl Default for PortManagerApp {
    /// The port list with an empty filter.
    fn default() -> (app: Self)
        ensures
            app.filter@ == Seq::<char>::empty(),
    {
        PortManagerApp { filter: String::new() }
    }
}

impl PortManagerApp {
    /// Whether the line that describes a socket is shown under the filter.
    pub fn shows(&self, line: &str) -> (shown: bool)
        ensures
            shown == line_shown(self.filter@, line@),
    {
        self.filter.as_str().is_empty() || text_contains(line, self.filter.as_str())
    }
}

} // verus!
