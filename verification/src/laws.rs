use vstd::prelude::*;
use crate::options::Options;
use crate::prefixer::number_prefix;
use crate::prefixer::prefixed_line;
use crate::PipeState;
use crate::diagnostic_line;
use crate::pipeline_output;
use crate::pipeline_state;
use crate::pipeline_step;
use crate::rendered;
use crate::tabs_shown;

verus! {

/// Whether the pipeline in state `st` drops this line result: only a
/// blank line repeating a blank, and only with squeezing enabled.
pub open spec fn is_squeezed(opts: Options, st: PipeState, ev: Result<Seq<char>, Seq<char>>) -> bool {
    ev matches Ok(l) && opts.squeeze_blank && st.prev_blank && l.len() == 0
}

/// How many of `input`'s line results the pipeline starting at `st`
/// drops by squeezing.
pub open spec fn squeezed_count(
    opts: Options,
    st: PipeState,
    input: Seq<Result<Seq<char>, Seq<char>>>,
) -> nat
    decreases input.len(),
{
    if input.len() == 0 {
        0
    } else {
        (if is_squeezed(opts, st, input[0]) {
            1 as nat
        } else {
            0 as nat
        }) + squeezed_count(opts, pipeline_step(opts, st, input[0]).0, input.drop_first())
    }
}

/// The pipeline emits one line per line result but for the results the
/// squeezer drops: a failed read is never dropped, so the output
/// counts the input lines, less the squeezed blanks, plus one
/// diagnostic line per failed read.
pub proof fn lemma_output_count(opts: Options, st: PipeState, input: Seq<Result<Seq<char>, Seq<char>>>)
    ensures
        pipeline_output(opts, st, input).len() + squeezed_count(opts, st, input) == input.len(),
    decreases input.len(),
{
    if input.len() > 0 {
        lemma_output_count(opts, pipeline_step(opts, st, input[0]).0, input.drop_first());
    }
}

/// With every transformation disabled, the pipeline emits exactly the
/// lines it was given, byte for byte.
pub proof fn lemma_disabled_filters_identity(
    opts: Options,
    st: PipeState,
    input: Seq<Result<Seq<char>, Seq<char>>>,
)
    requires
        !opts.show_tabs,
        !opts.show_ends,
        !opts.number_lines,
        !opts.number_non_blank_lines,
        !opts.squeeze_blank,
        forall|i: int| 0 <= i < input.len() ==> input[i] is Ok,
    ensures
        pipeline_output(opts, st, input) =~= input.map_values(
            |ev: Result<Seq<char>, Seq<char>>| ev->Ok_0,
        ),
    decreases input.len(),
{
    if input.len() > 0 {
        assert(input[0] is Ok);
        assert(forall|i: int|
            0 <= i < input.drop_first().len() ==> #[trigger] input.drop_first()[i] == input[i + 1]);
        lemma_disabled_filters_identity(opts, pipeline_step(opts, st, input[0]).0, input.drop_first());
    }
}

/// No two lines standing next to each other in `s` are both blank.
pub open spec fn no_adjacent_blanks(s: Seq<Seq<char>>) -> bool {
    forall|i: int, j: int|
        #![trigger s[i], s[j]]
        0 <= i && j == i + 1 && j < s.len() ==> !(s[i].len() == 0 && s[j].len() == 0)
}

/// Rendering tabs never shortens a line.
proof fn lemma_tabs_shown_len(line: Seq<char>)
    ensures
        tabs_shown(line).len() >= line.len(),
    decreases line.len(),
{
    if line.len() > 0 {
        lemma_tabs_shown_len(line.drop_last());
    }
}

/// Whatever the options, a non-blank source line leaves the pipeline
/// non-blank.
proof fn lemma_emitted_nonblank(opts: Options, count: nat, line: Seq<char>)
    requires
        line.len() > 0,
    ensures
        prefixed_line(
            opts.number_lines,
            opts.number_non_blank_lines,
            count,
            rendered(opts.show_tabs, opts.show_ends, line),
        ).len() > 0,
{
    lemma_tabs_shown_len(line);
}

/// A diagnostic line is never blank.
proof fn lemma_diagnostic_nonblank(msg: Seq<char>)
    ensures
        diagnostic_line(msg).len() > 0,
{
    reveal_strlit("catr: ");
}

proof fn lemma_squeeze_helper(opts: Options, st: PipeState, input: Seq<Result<Seq<char>, Seq<char>>>)
    requires
        opts.squeeze_blank,
    ensures
        no_adjacent_blanks(pipeline_output(opts, st, input)),
        st.prev_blank && pipeline_output(opts, st, input).len() > 0 ==> pipeline_output(
            opts,
            st,
            input,
        )[0].len() > 0,
    decreases input.len(),
{
    if input.len() == 0 {
        return;
    }
    let ev = input[0];
    let st2 = pipeline_step(opts, st, ev).0;
    let head = pipeline_step(opts, st, ev).1;
    let rest = pipeline_output(opts, st2, input.drop_first());
    let out = pipeline_output(opts, st, input);
    lemma_squeeze_helper(opts, st2, input.drop_first());
    match ev {
        Result::Err(msg) => {
            lemma_diagnostic_nonblank(msg);
            assert(out =~= seq![diagnostic_line(msg)] + rest);
            assert forall|i: int, j: int|
                #![trigger out[i], out[j]]
                0 <= i && j == i + 1 && j < out.len() implies !(out[i].len() == 0 && out[j].len()
                == 0) by {
                if i == 0 {
                    assert(out[0] == diagnostic_line(msg));
                } else {
                    assert(out[i] == rest[i - 1]);
                    assert(out[j] == rest[i]);
                }
            }
        },
        Result::Ok(l) => {
            if opts.squeeze_blank && st.prev_blank && l.len() == 0 {
                assert(out =~= rest);
            } else {
                let emitted = out[0];
                assert(out =~= head + rest);
                assert(out[0] == head[0]);
                if l.len() == 0 {
                    assert(st2.prev_blank);
                    assert forall|i: int, j: int|
                        #![trigger out[i], out[j]]
                        0 <= i && j == i + 1 && j < out.len() implies !(out[i].len() == 0
                        && out[j].len() == 0) by {
                        if i == 0 {
                            assert(out[1] == rest[0]);
                            assert(rest[0].len() > 0);
                        } else {
                            assert(out[i] == rest[i - 1]);
                            assert(out[j] == rest[i]);
                        }
                    }
                    assert(!st.prev_blank);
                } else {
                    lemma_emitted_nonblank(opts, st.count, l);
                    assert(emitted.len() > 0);
                    assert forall|i: int, j: int|
                        #![trigger out[i], out[j]]
                        0 <= i && j == i + 1 && j < out.len() implies !(out[i].len() == 0
                        && out[j].len() == 0) by {
                        if i == 0 {
                            assert(out[0] == emitted);
                        } else {
                            assert(out[i] == rest[i - 1]);
                            assert(out[j] == rest[i]);
                        }
                    }
                }
            }
        },
    }
}

/// With squeezing enabled, no two consecutive output lines are both
/// blank, from whatever state the pipeline starts in.
pub proof fn lemma_squeeze_no_adjacent_blanks(
    opts: Options,
    st: PipeState,
    input: Seq<Result<Seq<char>, Seq<char>>>,
)
    requires
        opts.squeeze_blank,
    ensures
        no_adjacent_blanks(pipeline_output(opts, st, input)),
{
    lemma_squeeze_helper(opts, st, input);
}

/// The pipeline's output restricted to the lines from successful
/// reads: the diagnostic lines for failed reads are left out.
pub open spec fn ok_line_output(
    opts: Options,
    st: PipeState,
    input: Seq<Result<Seq<char>, Seq<char>>>,
) -> Seq<Seq<char>>
    decreases input.len(),
{
    if input.len() == 0 {
        Seq::<Seq<char>>::empty()
    } else if input[0] is Err {
        ok_line_output(opts, pipeline_step(opts, st, input[0]).0, input.drop_first())
    } else {
        pipeline_step(opts, st, input[0]).1 + ok_line_output(
            opts,
            pipeline_step(opts, st, input[0]).0,
            input.drop_first(),
        )
    }
}

/// With numbering-all enabled, the k-th line emitted for a successful
/// read carries counter value `st.count + k`, blank or not, and the
/// counter afterwards has advanced by one per such line.
pub proof fn lemma_numbering_all(opts: Options, st: PipeState, input: Seq<Result<Seq<char>, Seq<char>>>)
    requires
        opts.number_lines,
        !opts.number_non_blank_lines,
    ensures
        forall|k: int|
            0 <= k < ok_line_output(opts, st, input).len() ==> number_prefix(
                (st.count + k) as nat,
            ).is_prefix_of(#[trigger] ok_line_output(opts, st, input)[k]),
        pipeline_state(opts, st, input).count == st.count + ok_line_output(opts, st, input).len(),
    decreases input.len(),
{
    if input.len() == 0 {
        return;
    }
    let ev = input[0];
    let st2 = pipeline_step(opts, st, ev).0;
    let rest = ok_line_output(opts, st2, input.drop_first());
    let out = ok_line_output(opts, st, input);
    lemma_numbering_all(opts, st2, input.drop_first());
    match ev {
        Result::Err(_) => {
        },
        Result::Ok(l) => {
            if opts.squeeze_blank && st.prev_blank && l.len() == 0 {
                assert(out =~= rest);
            } else {
                let shown = rendered(opts.show_tabs, opts.show_ends, l);
                let emitted = number_prefix(st.count) + shown;
                assert(out =~= seq![emitted] + rest);
                assert(st2.count == st.count + 1);
                assert forall|k: int|
                    0 <= k < out.len() implies number_prefix((st.count + k) as nat).is_prefix_of(
                    #[trigger] out[k],
                ) by {
                    if k == 0 {
                        assert(emitted.subrange(0, number_prefix(st.count).len() as int)
                            =~= number_prefix(st.count));
                    } else {
                        assert(out[k] == rest[k - 1]);
                        assert(number_prefix((st.count + k) as nat) == number_prefix(
                            (st2.count + (k - 1)) as nat,
                        ));
                    }
                }
            }
        },
    }
}

/// How many lines of `s` are non-blank.
pub open spec fn count_nonblank(s: Seq<Seq<char>>) -> nat
    decreases s.len(),
{
    if s.len() == 0 {
        0
    } else {
        (if s[0].len() > 0 {
            1 as nat
        } else {
            0 as nat
        }) + count_nonblank(s.drop_first())
    }
}

/// With non-blank-only numbering enabled, a blank emitted line carries
/// no counter — it is emitted untouched — and a non-blank one carries a
/// counter that counts only the non-blank lines emitted before it; the
/// counter afterwards has advanced by one per non-blank line.
pub proof fn lemma_numbering_non_blank(
    opts: Options,
    st: PipeState,
    input: Seq<Result<Seq<char>, Seq<char>>>,
)
    requires
        opts.number_non_blank_lines,
    ensures
        forall|k: int|
            0 <= k < ok_line_output(opts, st, input).len() && #[trigger] ok_line_output(
                opts,
                st,
                input,
            )[k].len() > 0 ==> number_prefix(
                st.count + count_nonblank(ok_line_output(opts, st, input).take(k)),
            ).is_prefix_of(ok_line_output(opts, st, input)[k]),
        pipeline_state(opts, st, input).count == st.count + count_nonblank(
            ok_line_output(opts, st, input),
        ),
    decreases input.len(),
{
    if input.len() == 0 {
        return;
    }
    let ev = input[0];
    let st2 = pipeline_step(opts, st, ev).0;
    let rest = ok_line_output(opts, st2, input.drop_first());
    let out = ok_line_output(opts, st, input);
    lemma_numbering_non_blank(opts, st2, input.drop_first());
    match ev {
        Result::Err(_) => {
        },
        Result::Ok(l) => {
            if opts.squeeze_blank && st.prev_blank && l.len() == 0 {
                assert(out =~= rest);
            } else {
                let shown = rendered(opts.show_tabs, opts.show_ends, l);
                let emitted = pipeline_step(opts, st, ev).1[0];
                assert(out =~= seq![emitted] + rest);
                assert((seq![emitted] + rest).drop_first() =~= rest);
                if shown.len() == 0 {
                    assert(emitted == shown);
                    assert(st2.count == st.count);
                    assert(count_nonblank(out) == count_nonblank(rest));
                    assert forall|k: int|
                        0 <= k < out.len() && #[trigger] out[k].len() > 0 implies number_prefix(
                        st.count + count_nonblank(out.take(k)),
                    ).is_prefix_of(out[k]) by {
                        assert(k > 0);
                        assert(out[k] == rest[k - 1]);
                        assert(out.take(k)[0] == emitted);
                        assert(out.take(k).drop_first() =~= rest.take(k - 1));
                        assert(count_nonblank(out.take(k)) == count_nonblank(rest.take(k - 1)));
                    }
                } else {
                    assert(emitted == number_prefix(st.count) + shown);
                    assert(emitted.len() > 0);
                    assert(st2.count == st.count + 1);
                    assert(count_nonblank(out) == 1 + count_nonblank(rest));
                    assert forall|k: int|
                        0 <= k < out.len() && #[trigger] out[k].len() > 0 implies number_prefix(
                        st.count + count_nonblank(out.take(k)),
                    ).is_prefix_of(out[k]) by {
                        if k == 0 {
                            assert(out.take(0) =~= Seq::<Seq<char>>::empty());
                            assert(count_nonblank(out.take(0)) == 0);
                            assert(emitted.subrange(0, number_prefix(st.count).len() as int)
                                =~= number_prefix(st.count));
                        } else {
                            assert(out[k] == rest[k - 1]);
                            assert(out.take(k)[0] == emitted);
                            assert(out.take(k).drop_first() =~= rest.take(k - 1));
                            assert(count_nonblank(out.take(k)) == 1 + count_nonblank(
                                rest.take(k - 1),
                            ));
                        }
                    }
                }
            }
        },
    }
}

/// Sources concatenate in order: the lines a first batch of line
/// results is transformed to all precede those of a second, and the
/// filter state — the counter among it — carries across the boundary.
pub proof fn lemma_pipeline_concat(
    opts: Options,
    st: PipeState,
    a: Seq<Result<Seq<char>, Seq<char>>>,
    b: Seq<Result<Seq<char>, Seq<char>>>,
)
    ensures
        pipeline_state(opts, st, a + b) == pipeline_state(opts, pipeline_state(opts, st, a), b),
        pipeline_output(opts, st, a + b) =~= pipeline_output(opts, st, a) + pipeline_output(
            opts,
            pipeline_state(opts, st, a),
            b,
        ),
    decreases a.len(),
{
    if a.len() == 0 {
        assert(a + b =~= b);
    } else {
        assert((a + b)[0] == a[0]);
        assert((a + b).drop_first() =~= a.drop_first() + b);
        lemma_pipeline_concat(opts, pipeline_step(opts, st, a[0]).0, a.drop_first(), b);
    }
}

} // verus!
