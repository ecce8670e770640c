use vstd::prelude::*;
use vstd::string::StringExecFns;
use crate::decimal::right_justified;
use crate::decimal::justified_string;
use crate::options::Options;

verus! {

/// The text a numbered line is prefixed with: the counter value
/// right-justified in a six-character field, then a tab.
pub open spec fn number_prefix(count: nat) -> Seq<char> {
    right_justified(count, 6).push('\t')
}

/// What the prefixer emits for `line` when its counter holds `count`:
/// the line untouched when only non-blank lines are numbered and this
/// one is blank, the numbered line when either numbering mode is on,
/// and the line untouched otherwise.
pub open spec fn prefixed_line(
    number_lines: bool,
    number_non_blank_lines: bool,
    count: nat,
    line: Seq<char>,
) -> Seq<char> {
    if number_non_blank_lines && line.len() == 0 {
        line
    } else if number_lines || number_non_blank_lines {
        number_prefix(count) + line
    } else {
        line
    }
}

/// The counter value after the prefixer has seen `line`: unchanged for
/// a blank line under non-blank-only numbering, advanced by one for
/// every other line, whether or not a prefix was rendered.
pub open spec fn next_count(number_non_blank_lines: bool, count: nat, line: Seq<char>) -> nat {
    if number_non_blank_lines && line.len() == 0 {
        count
    } else {
        count + 1
    }
}

/// Prepends a right-aligned counter and a tab to lines, numbering
/// either every line or only non-blank lines.
pub struct LinePrefixer {
    count: u64,
    number_lines: bool,
    number_non_blank_lines: bool,
}

impl LinePrefixer {
    /// The value the counter holds for the next numbered line.
    pub closed spec fn counter(self) -> nat {
        self.count as nat
    }

    /// Whether every line is numbered.
    pub closed spec fn numbers_all(self) -> bool {
        self.number_lines
    }

    /// Whether only non-blank lines are numbered.
    pub closed spec fn numbers_non_blank(self) -> bool {
        self.number_non_blank_lines
    }

    /// A prefixer configured as the run's options say, counter at one.
    pub fn from_options(opts: &Options) -> (p: Self)
        ensures
            p.counter() == 1,
            p.numbers_all() == opts.number_lines,
            p.numbers_non_blank() == opts.number_non_blank_lines,
    {
        LinePrefixer {
            count: 1,
            number_lines: opts.number_lines,
            number_non_blank_lines: opts.number_non_blank_lines,
        }
    }

    /// Numbers `line` as configured; the counter advances for every
    /// line that non-blank-only numbering does not suppress, even when
    /// no numbering mode is active.
    pub fn prefix(&mut self, line: &str) -> (r: String)
        requires
            old(self).counter() < u64::MAX,
        ensures
            r@ == prefixed_line(
                old(self).numbers_all(),
                old(self).numbers_non_blank(),
                old(self).counter(),
                line@,
            ),
            final(self).counter() == next_count(
                old(self).numbers_non_blank(),
                old(self).counter(),
                line@,
            ),
            final(self).numbers_all() == old(self).numbers_all(),
            final(self).numbers_non_blank() == old(self).numbers_non_blank(),
    {
        if self.number_non_blank_lines && line.is_empty() {
            return line.to_owned();
        }

        let result: String;
        if self.number_lines || self.number_non_blank_lines {
            let mut prefixed = justified_string(self.count, 6);
            prefixed.append("\t");
            prefixed.append(line);
            proof {
                reveal_strlit("\t");
                assert(prefixed@ =~= number_prefix(old(self).counter()) + line@);
            }
            result = prefixed;
        } else {
            result = line.to_owned();
        }

        self.count = self.count + 1;

        result
    }
}

} // verus!
