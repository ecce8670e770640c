use catr::options::Options;
use catr::prefixer::LinePrefixer;

fn opts(number_lines: bool, number_non_blank_lines: bool) -> Options {
    Options {
        file: vec![],
        number_lines,
        number_non_blank_lines,
        show_ends: false,
        show_tabs: false,
        squeeze_blank: false,
    }
}

fn run_prefixer(number_lines: bool, number_non_blank_lines: bool, lines: &[&str]) -> String {
    let options = opts(number_lines, number_non_blank_lines);
    let mut prefixer = LinePrefixer::from_options(&options);
    lines
        .iter()
        .map(|l| prefixer.prefix(l))
        .collect::<Vec<String>>()
        .join("\n")
}

#[test]
fn prefix_no_options_non_blank() {
    assert_eq!("abc", run_prefixer(false, false, &["abc"]));
}

#[test]
fn prefix_no_options_multi_line() {
    assert_eq!("abc\ndef", run_prefixer(false, false, &["abc", "def"]));
}

#[test]
fn prefix_no_options_multi_line_blanks() {
    assert_eq!("abc\n\ndef", run_prefixer(false, false, &["abc", "", "def"]));
}

#[test]
fn prefix_no_options_blank() {
    assert_eq!("", run_prefixer(false, false, &[""]));
}

#[test]
fn prefix_number_lines_non_blank() {
    assert_eq!("     1\tabc", run_prefixer(true, false, &["abc"]));
}

#[test]
fn prefix_number_lines_multi_line() {
    assert_eq!("     1\tabc\n     2\tdef", run_prefixer(true, false, &["abc", "def"]));
}

#[test]
fn prefix_number_lines_multi_line_blanks() {
    assert_eq!(
        "     1\tabc\n     2\t\n     3\tdef",
        run_prefixer(true, false, &["abc", "", "def"])
    );
}

#[test]
fn prefix_number_lines_blank() {
    assert_eq!("     1\t", run_prefixer(true, false, &[""]));
}

#[test]
fn prefix_number_non_blank_lines_non_blank() {
    assert_eq!("     1\tabc", run_prefixer(false, true, &["abc"]));
}

#[test]
fn prefix_number_non_blank_lines_multi_line() {
    assert_eq!("     1\tabc\n     2\tdef", run_prefixer(false, true, &["abc", "def"]));
}

#[test]
fn prefix_number_non_blank_lines_multi_line_blanks() {
    assert_eq!(
        "     1\tabc\n\n     2\tdef",
        run_prefixer(false, true, &["abc", "", "def"])
    );
}

#[test]
fn prefix_number_non_blank_lines_blank() {
    assert_eq!("", run_prefixer(false, true, &[""]));
}

#[test]
fn prefix_both_modes_non_blank() {
    assert_eq!("     1\tabc", run_prefixer(true, true, &["abc"]));
}

#[test]
fn prefix_both_modes_multi_line() {
    assert_eq!("     1\tabc\n     2\tdef", run_prefixer(true, true, &["abc", "def"]));
}

#[test]
fn prefix_both_modes_multi_line_blanks() {
    assert_eq!(
        "     1\tabc\n\n     2\tdef",
        run_prefixer(true, true, &["abc", "", "def"])
    );
}

#[test]
fn prefix_both_modes_blank() {
    assert_eq!("", run_prefixer(true, true, &[""]));
}
