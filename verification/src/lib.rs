use vstd::prelude::*;
use vstd::string::StrSliceExecFns;
use vstd::string::StringExecFns;

pub mod decimal;
pub mod laws;
pub mod options;
pub mod prefixer;
pub mod squeezer;

use crate::options::Options;
use crate::prefixer::LinePrefixer;
use crate::prefixer::next_count;
use crate::prefixer::prefixed_line;
use crate::squeezer::LineSqueezer;

verus! {

/// One line read from a source, or the message a failed read or open
/// is reported with.
pub type LineResult = Result<String, String>;

/// The spec-level view of one line result.
pub open spec fn line_event(r: LineResult) -> Result<Seq<char>, Seq<char>> {
    match r {
        Result::Ok(l) => Result::Ok(l@),
        Result::Err(m) => Result::Err(m@),
    }
}

/// The spec-level view of a sequence of line results.
pub open spec fn line_events(rs: Seq<LineResult>) -> Seq<Result<Seq<char>, Seq<char>>> {
    rs.map_values(|r: LineResult| line_event(r))
}

/// `line` with every tab rendered as the two characters `^I`.
pub open spec fn tabs_shown(line: Seq<char>) -> Seq<char>
    decreases line.len(),
{
    if line.len() == 0 {
        Seq::empty()
    } else if line.last() == '\t' {
        tabs_shown(line.drop_last()) + seq!['^', 'I']
    } else {
        tabs_shown(line.drop_last()).push(line.last())
    }
}

/// A line as the visualization filters render it: tabs first, then the
/// end-of-line mark.
pub open spec fn rendered(show_tabs: bool, show_ends: bool, line: Seq<char>) -> Seq<char> {
    let shown = if show_tabs {
        tabs_shown(line)
    } else {
        line
    };
    if show_ends {
        shown.push('$')
    } else {
        shown
    }
}

/// The diagnostic line a failed read or open is reported as: the
/// program name, a separator, and the failure's message.
pub open spec fn diagnostic_line(msg: Seq<char>) -> Seq<char> {
    "catr: "@ + msg
}

/// The state the pipeline carries across lines: the numbering counter
/// and the squeezer's memory of a preceding blank line.
pub ghost struct PipeState {
    pub count: nat,
    pub prev_blank: bool,
}

/// One line result through the whole pipeline: the state afterwards,
/// and the lines emitted — none for a squeezed blank line, one
/// otherwise.
///
/// A failed read bypasses every filter: it is emitted as a diagnostic
/// line and leaves the state untouched.
pub open spec fn pipeline_step(opts: Options, st: PipeState, ev: Result<Seq<char>, Seq<char>>) -> (
    PipeState,
    Seq<Seq<char>>,
) {
    match ev {
        Result::Err(msg) => (st, seq![diagnostic_line(msg)]),
        Result::Ok(line) => {
            if opts.squeeze_blank && st.prev_blank && line.len() == 0 {
                (st, Seq::<Seq<char>>::empty())
            } else {
                let prev_blank = if opts.squeeze_blank {
                    line.len() == 0
                } else {
                    st.prev_blank
                };
                let shown = rendered(opts.show_tabs, opts.show_ends, line);
                let out = prefixed_line(
                    opts.number_lines,
                    opts.number_non_blank_lines,
                    st.count,
                    shown,
                );
                let count = next_count(opts.number_non_blank_lines, st.count, shown);
                (PipeState { count, prev_blank }, seq![out])
            }
        },
    }
}

/// The pipeline's state after a whole sequence of line results.
pub open spec fn pipeline_state(
    opts: Options,
    st: PipeState,
    input: Seq<Result<Seq<char>, Seq<char>>>,
) -> PipeState
    decreases input.len(),
{
    if input.len() == 0 {
        st
    } else {
        pipeline_state(opts, pipeline_step(opts, st, input[0]).0, input.drop_first())
    }
}

/// Every line the pipeline emits for a sequence of line results, in
/// order.
pub open spec fn pipeline_output(
    opts: Options,
    st: PipeState,
    input: Seq<Result<Seq<char>, Seq<char>>>,
) -> Seq<Seq<char>>
    decreases input.len(),
{
    if input.len() == 0 {
        Seq::<Seq<char>>::empty()
    } else {
        pipeline_step(opts, st, input[0]).1 + pipeline_output(
            opts,
            pipeline_step(opts, st, input[0]).0,
            input.drop_first(),
        )
    }
}

/// Extending the input by one line result extends the output by that
/// result's step, taken in the state the earlier results lead to.
pub proof fn lemma_pipeline_snoc(
    opts: Options,
    st: PipeState,
    input: Seq<Result<Seq<char>, Seq<char>>>,
    ev: Result<Seq<char>, Seq<char>>,
)
    ensures
        pipeline_state(opts, st, input.push(ev)) == pipeline_step(
            opts,
            pipeline_state(opts, st, input),
            ev,
        ).0,
        pipeline_output(opts, st, input.push(ev)) =~= pipeline_output(opts, st, input)
            + pipeline_step(opts, pipeline_state(opts, st, input), ev).1,
    decreases input.len(),
{
    if input.len() == 0 {
        assert(input.push(ev)[0] == ev);
        assert(input.push(ev).drop_first() =~= Seq::<Result<Seq<char>, Seq<char>>>::empty());
        assert(pipeline_state(
            opts,
            pipeline_step(opts, st, ev).0,
            Seq::<Result<Seq<char>, Seq<char>>>::empty(),
        ) == pipeline_step(opts, st, ev).0);
        assert(pipeline_output(
            opts,
            pipeline_step(opts, st, ev).0,
            Seq::<Result<Seq<char>, Seq<char>>>::empty(),
        ) =~= Seq::<Seq<char>>::empty());
        assert(pipeline_output(opts, st, input) =~= Seq::<Seq<char>>::empty());
    } else {
        assert(input.push(ev)[0] == input[0]);
        assert(input.push(ev).drop_first() =~= input.drop_first().push(ev));
        lemma_pipeline_snoc(opts, pipeline_step(opts, st, input[0]).0, input.drop_first(), ev);
    }
}

/// Renders every tab in `line` as the two characters `^I`.
fn render_tabs(line: &str) -> (r: String)
    ensures
        r@ == tabs_shown(line@),
{
    let n = line.unicode_len();
    let mut r = String::new();
    let mut i: usize = 0;
    while i < n
        invariant
            i <= n,
            n == line@.len(),
            r@ == tabs_shown(line@.take(i as int)),
        decreases n - i,
    {
        proof {
            assert(line@.take(i + 1).drop_last() =~= line@.take(i as int));
            assert(line@.take(i + 1).last() == line@[i as int]);
        }
        let c = line.get_char(i);
        if c == '\t' {
            r.append("^I");
            proof {
                reveal_strlit("^I");
                assert(r@ =~= tabs_shown(line@.take(i + 1)));
            }
        } else {
            let piece = line.substring_char(i, i + 1);
            r.append(piece);
            proof {
                assert(piece@ =~= seq![line@[i as int]]);
                assert(r@ =~= tabs_shown(line@.take(i + 1)));
            }
        }
        i = i + 1;
    }
    proof {
        assert(line@.take(n as int) =~= line@);
    }
    r
}

/// A run of the transformer: the options it was built from, and the
/// stateful squeeze and numbering filters it threads every line
/// through.
pub struct Command {
    options: Options,
    prefixer: LinePrefixer,
    squeezer: LineSqueezer,
}

impl Command {
    /// The options this command was built from.
    pub closed spec fn opts(self) -> Options {
        self.options
    }

    /// The pipeline state its filters currently hold.
    pub closed spec fn state(self) -> PipeState {
        PipeState { count: self.prefixer.counter(), prev_blank: self.squeezer.prev_blank() }
    }

    /// The prefixer is configured as the options say.
    pub closed spec fn wf(self) -> bool {
        &&& self.prefixer.numbers_all() == self.options.number_lines
        &&& self.prefixer.numbers_non_blank() == self.options.number_non_blank_lines
    }

    /// A command over the given options, with fresh filter state: the
    /// counter at one, no blank line remembered.
    pub fn new(options: Options) -> (c: Self)
        ensures
            c.wf(),
            c.opts() == options,
            c.state() == (PipeState { count: 1 as nat, prev_blank: false }),
    {
        let prefixer = LinePrefixer::from_options(&options);
        let squeezer = LineSqueezer::new();
        Command { options, prefixer, squeezer }
    }

    /// The squeeze stage: drops a blank line that repeats a blank when
    /// squeezing is enabled; passes every other line result, failed
    /// reads included, through unchanged.
    pub fn apply_squeeze_blank(&mut self, result: LineResult) -> (r: Option<LineResult>)
        ensures
            final(self).opts() == old(self).opts(),
            final(self).wf() == old(self).wf(),
            final(self).state().count == old(self).state().count,
            result matches Err(m) ==> {
                &&& r matches Some(rr) && rr matches Err(m2) && m2@ == m@
                &&& final(self).state() == old(self).state()
            },
            result matches Ok(l) ==> {
                if old(self).opts().squeeze_blank && old(self).state().prev_blank && l@.len()
                    == 0 {
                    &&& r is None
                    &&& final(self).state() == old(self).state()
                } else {
                    &&& r matches Some(rr) && rr matches Ok(l2) && l2@ == l@
                    &&& final(self).state().prev_blank == (if old(self).opts().squeeze_blank {
                        l@.len() == 0
                    } else {
                        old(self).state().prev_blank
                    })
                }
            },
    {
        match result {
            Result::Ok(l) => {
                if self.options.squeeze_blank {
                    return match self.squeezer.squeeze(l.as_str()) {
                        Option::Some(kept) => Option::Some(Result::Ok(kept)),
                        Option::None => Option::None,
                    };
                }
                Option::Some(Result::Ok(l))
            },
            Result::Err(e) => Option::Some(Result::Err(e)),
        }
    }

    /// The tab stage: renders every tab as `^I` when enabled, and is
    /// the identity on the line when disabled; failed reads pass
    /// through unchanged.
    pub fn apply_show_tabs(&self, result: LineResult) -> (r: LineResult)
        ensures
            result matches Ok(l) ==> r matches Ok(t) && t@ == (if self.opts().show_tabs {
                tabs_shown(l@)
            } else {
                l@
            }),
            result matches Err(m) ==> r matches Err(m2) && m2@ == m@,
    {
        match result {
            Result::Ok(l) => {
                if !self.options.show_tabs {
                    return Result::Ok(l);
                }
                Result::Ok(render_tabs(l.as_str()))
            },
            Result::Err(e) => Result::Err(e),
        }
    }

    /// The end-of-line stage: appends `$` when enabled, and is the
    /// identity on the line when disabled; failed reads pass through
    /// unchanged.
    pub fn apply_show_ends(&self, result: LineResult) -> (r: LineResult)
        ensures
            result matches Ok(l) ==> r matches Ok(t) && t@ == (if self.opts().show_ends {
                l@.push('$')
            } else {
                l@
            }),
            result matches Err(m) ==> r matches Err(m2) && m2@ == m@,
    {
        match result {
            Result::Ok(l) => {
                if !self.options.show_ends {
                    return Result::Ok(l);
                }
                let mut marked = l;
                marked.append("$");
                proof {
                    reveal_strlit("$");
                    assert(marked@ =~= result->Ok_0@.push('$'));
                }
                Result::Ok(marked)
            },
            Result::Err(e) => Result::Err(e),
        }
    }

    /// The final stage: numbers a surviving line as configured, and
    /// renders a failed read as a diagnostic line that bypasses
    /// numbering and leaves the counter untouched.
    pub fn apply_prefix(&mut self, result: LineResult) -> (r: Option<String>)
        requires
            old(self).wf(),
            old(self).state().count < u64::MAX,
        ensures
            final(self).opts() == old(self).opts(),
            final(self).wf(),
            final(self).state().prev_blank == old(self).state().prev_blank,
            result matches Ok(l) ==> {
                &&& r matches Some(s) && s@ == prefixed_line(
                    old(self).opts().number_lines,
                    old(self).opts().number_non_blank_lines,
                    old(self).state().count,
                    l@,
                )
                &&& final(self).state().count == next_count(
                    old(self).opts().number_non_blank_lines,
                    old(self).state().count,
                    l@,
                )
            },
            result matches Err(m) ==> {
                &&& r matches Some(s) && s@ == diagnostic_line(m@)
                &&& final(self).state().count == old(self).state().count
            },
    {
        match result {
            Result::Ok(l) => Option::Some(self.prefixer.prefix(l.as_str())),
            Result::Err(e) => {
                let mut diag = String::from_str("catr: ");
                diag.append(e.as_str());
                Option::Some(diag)
            },
        }
    }

    /// Runs every line result through the squeeze, tab, end-of-line and
    /// numbering stages, in that order, and returns the emitted lines
    /// in order: one per surviving line, one diagnostic per failed
    /// read, none for a squeezed blank.
    pub fn process(&mut self, results: Vec<LineResult>) -> (out: Vec<String>)
        requires
            old(self).wf(),
            old(self).state().count + results@.len() <= u64::MAX,
        ensures
            final(self).wf(),
            final(self).opts() == old(self).opts(),
            out@.map_values(|s: String| s@) == pipeline_output(
                old(self).opts(),
                old(self).state(),
                line_events(results@),
            ),
            final(self).state() == pipeline_state(
                old(self).opts(),
                old(self).state(),
                line_events(results@),
            ),
    {
        let ghost opts = self.options;
        let ghost st0 = self.state();
        let ghost events = line_events(results@);
        let mut out: Vec<String> = Vec::new();
        let mut i: usize = 0;
        while i < results.len()
            invariant
                i <= results@.len(),
                self.wf(),
                self.opts() == opts,
                events == line_events(results@),
                st0.count + results@.len() <= u64::MAX,
                self.state().count <= st0.count + i,
                out@.map_values(|s: String| s@) == pipeline_output(opts, st0, events.take(i as int)),
                self.state() == pipeline_state(opts, st0, events.take(i as int)),
            decreases results@.len() - i,
        {
            let r: LineResult = match &results[i] {
                Result::Ok(l) => Result::Ok(l.clone()),
                Result::Err(m) => Result::Err(m.clone()),
            };
            proof {
                assert(line_event(r) == events[i as int]);
            }
            match self.apply_squeeze_blank(r) {
                Option::Some(passed) => {
                    let shown = self.apply_show_tabs(passed);
                    let marked = self.apply_show_ends(shown);
                    match self.apply_prefix(marked) {
                        Option::Some(line) => {
                            let ghost out_pre = out@;
                            out.push(line);
                            proof {
                                assert(out@.map_values(|s: String| s@) =~= out_pre.map_values(
                                    |s: String| s@,
                                ).push(line@));
                            }
                        },
                        Option::None => {},
                    }
                },
                Option::None => {},
            }
            proof {
                lemma_pipeline_snoc(opts, st0, events.take(i as int), events[i as int]);
                assert(events.take(i as int).push(events[i as int]) =~= events.take(i + 1));
            }
            i = i + 1;
        }
        proof {
            assert(events.take(results@.len() as int) =~= events);
        }
        out
    }
}

} // verus!
