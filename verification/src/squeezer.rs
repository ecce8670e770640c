use vstd::prelude::*;

verus! {

/// Collapses runs of consecutive blank lines to a single blank line.
///
/// The squeezer remembers whether the line it last passed through was
/// blank; a blank line that arrives while that memory is set is dropped.
pub struct LineSqueezer {
    previous_blank: bool,
}

impl LineSqueezer {
    /// Whether the last line this squeezer passed through was blank.
    pub closed spec fn prev_blank(self) -> bool {
        self.previous_blank
    }

    pub fn new() -> (s: Self)
        ensures
            !s.prev_blank(),
    {
        LineSqueezer { previous_blank: false }
    }

    /// Drops a blank line that immediately follows another blank line;
    /// passes every other line through unchanged and remembers whether
    /// it was blank.
    pub fn squeeze(&mut self, line: &str) -> (r: Option<String>)
        ensures
            old(self).prev_blank() && line@.len() == 0 ==> {
                &&& r is None
                &&& final(self).prev_blank()
            },
            !(old(self).prev_blank() && line@.len() == 0) ==> {
                &&& r matches Some(l) && l@ == line@
                &&& final(self).prev_blank() == (line@.len() == 0)
            },
    {
        if self.previous_blank && line.is_empty() {
            return None;
        }

        self.previous_blank = line.is_empty();

        Some(line.to_owned())
    }
}

} // verus!
