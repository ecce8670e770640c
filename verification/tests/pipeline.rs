use catr::options::Options;
use catr::Command;

fn opts(
    number_lines: bool,
    number_non_blank_lines: bool,
    show_ends: bool,
    show_tabs: bool,
    squeeze_blank: bool,
) -> Options {
    Options {
        file: vec![],
        number_lines,
        number_non_blank_lines,
        show_ends,
        show_tabs,
        squeeze_blank,
    }
}

fn ok_lines(lines: &[&str]) -> Vec<Result<String, String>> {
    lines.iter().map(|l| Ok(l.to_string())).collect()
}

#[test]
fn plain_run_copies_lines() {
    let mut command = Command::new(opts(false, false, false, false, false));
    let out = command.process(ok_lines(&["abc", "", "def"]));
    assert_eq!(vec!["abc", "", "def"], out);
}

#[test]
fn numbering_all_numbers_every_line() {
    let mut command = Command::new(opts(true, false, false, false, false));
    let out = command.process(ok_lines(&["abc", "", "def"]));
    assert_eq!(vec!["     1\tabc", "     2\t", "     3\tdef"], out);
}

#[test]
fn numbering_non_blank_skips_blank_lines() {
    let mut command = Command::new(opts(false, true, false, false, false));
    let out = command.process(ok_lines(&["abc", "", "def"]));
    assert_eq!(vec!["     1\tabc", "", "     2\tdef"], out);
}

#[test]
fn squeeze_collapses_blank_runs() {
    let mut command = Command::new(opts(false, false, false, false, true));
    let out = command.process(ok_lines(&["a", "", "", "b"]));
    assert_eq!(vec!["a", "", "b"], out);
}

#[test]
fn show_tabs_renders_tabs() {
    let mut command = Command::new(opts(false, false, false, true, false));
    let out = command.process(ok_lines(&["a\tb", "\t", "no tabs"]));
    assert_eq!(vec!["a^Ib", "^I", "no tabs"], out);
}

#[test]
fn show_tabs_keeps_non_ascii_text() {
    let mut command = Command::new(opts(false, false, false, true, false));
    let out = command.process(ok_lines(&["é\tü", "日本\t語"]));
    assert_eq!(vec!["é^Iü", "日本^I語"], out);
}

#[test]
fn show_ends_marks_line_ends() {
    let mut command = Command::new(opts(false, false, true, false, false));
    let out = command.process(ok_lines(&["x", ""]));
    assert_eq!(vec!["x$", "$"], out);
}

#[test]
fn tabs_are_rendered_before_the_end_mark() {
    let mut command = Command::new(opts(false, false, true, true, false));
    let out = command.process(ok_lines(&["a\t"]));
    assert_eq!(vec!["a^I$"], out);
}

#[test]
fn end_marked_blank_lines_count_as_non_blank() {
    let mut command = Command::new(opts(false, true, true, false, false));
    let out = command.process(ok_lines(&["", "x"]));
    assert_eq!(vec!["     1\t$", "     2\tx$"], out);
}

#[test]
fn squeeze_sees_blankness_before_the_end_mark() {
    let mut command = Command::new(opts(false, false, true, false, true));
    let out = command.process(ok_lines(&["", "", "a"]));
    assert_eq!(vec!["$", "a$"], out);
}

#[test]
fn read_error_becomes_one_diagnostic_line() {
    let mut command = Command::new(opts(false, false, false, false, false));
    let out = command.process(vec![Err(
        "nofile.txt: No such file or directory (os error 2)".to_string(),
    )]);
    assert_eq!(
        vec!["catr: nofile.txt: No such file or directory (os error 2)"],
        out
    );
}

#[test]
fn read_error_bypasses_numbering_and_squeezing() {
    let mut command = Command::new(opts(true, false, false, false, true));
    let out = command.process(vec![
        Ok("a".to_string()),
        Err("boom".to_string()),
        Ok("b".to_string()),
    ]);
    assert_eq!(vec!["     1\ta", "catr: boom", "     2\tb"], out);
}

#[test]
fn counters_continue_across_batches() {
    let mut command = Command::new(opts(true, false, false, false, false));
    let first = command.process(ok_lines(&["a", "b"]));
    let second = command.process(ok_lines(&["c"]));
    assert_eq!(vec!["     1\ta", "     2\tb"], first);
    assert_eq!(vec!["     3\tc"], second);
}

#[test]
fn squeezing_continues_across_batches() {
    let mut command = Command::new(opts(false, false, false, false, true));
    let first = command.process(ok_lines(&["a", ""]));
    let second = command.process(ok_lines(&["", "b"]));
    assert_eq!(vec!["a", ""], first);
    assert_eq!(vec!["b"], second);
}

#[test]
fn empty_input_gives_empty_output() {
    let mut command = Command::new(opts(true, true, true, true, true));
    let out = command.process(vec![]);
    assert!(out.is_empty());
}

#[test]
fn squeeze_with_numbering_non_blank() {
    let mut command = Command::new(opts(false, true, false, false, true));
    let out = command.process(ok_lines(&["a", "", "", "b"]));
    assert_eq!(vec!["     1\ta", "", "     2\tb"], out);
}

#[test]
fn output_counts_input_less_squeezed_plus_errors() {
    let mut command = Command::new(opts(false, false, false, false, true));
    let out = command.process(vec![
        Ok("a".to_string()),
        Ok("".to_string()),
        Ok("".to_string()),
        Ok("b".to_string()),
        Err("bad read".to_string()),
    ]);
    // five results, one squeezed blank, the error kept: four lines out
    assert_eq!(4, out.len());
    assert_eq!(vec!["a", "", "b", "catr: bad read"], out);
}

#[test]
fn stages_compose_one_line_at_a_time() {
    let mut command = Command::new(opts(true, false, false, true, true));
    let mut out: Vec<String> = Vec::new();
    for r in [
        Ok("a\tb".to_string()),
        Ok("".to_string()),
        Ok("".to_string()),
        Err("bad read".to_string()),
    ] {
        match command.apply_squeeze_blank(r) {
            Some(passed) => {
                let shown = command.apply_show_tabs(passed);
                let marked = command.apply_show_ends(shown);
                if let Some(line) = command.apply_prefix(marked) {
                    out.push(line);
                }
            }
            None => {}
        }
    }
    assert_eq!(vec!["     1\ta^Ib", "     2\t", "catr: bad read"], out);
}
