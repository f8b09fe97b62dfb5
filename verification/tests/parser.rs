use mini_shell::parser::{classify, split_args, CommandKind, Splitter};

fn strings(items: &[&str]) -> Vec<String> {
    items.iter().map(|s| s.to_string()).collect()
}

#[test]
fn split_keeps_quoted_spaces() {
    assert_eq!(split_args("a 'b c' d"), strings(&["a", "b c", "d"]));
}

#[test]
fn split_of_empty_line_is_empty() {
    assert_eq!(split_args(""), Vec::<String>::new());
}

#[test]
fn split_of_blank_line_is_empty() {
    assert_eq!(split_args("   "), Vec::<String>::new());
    assert_eq!(split_args(" \t \n"), Vec::<String>::new());
}

#[test]
fn split_joins_adjacent_quoted_spans() {
    assert_eq!(split_args("'a''b'"), strings(&["ab"]));
    assert_eq!(split_args("x'a'\"b\"y"), strings(&["xaby"]));
}

#[test]
fn split_collapses_runs_of_white_space() {
    assert_eq!(split_args("  echo   hello \t world  "), strings(&["echo", "hello", "world"]));
}

#[test]
fn split_treats_double_quotes_as_literal_spans() {
    assert_eq!(split_args("say \"a  b\" c"), strings(&["say", "a  b", "c"]));
    assert_eq!(split_args("\"a\\nb\""), strings(&["a\\nb"]));
}

#[test]
fn split_keeps_the_other_quote_inside_a_span() {
    assert_eq!(split_args("'a\"b'"), strings(&["a\"b"]));
    assert_eq!(split_args("\"it's\""), strings(&["it's"]));
}

#[test]
fn split_emits_the_partial_word_of_an_open_quote() {
    assert_eq!(split_args("echo 'abc def"), strings(&["echo", "abc def"]));
    assert_eq!(split_args("a '"), strings(&["a", ""]));
    assert_eq!(split_args("\""), strings(&[""]));
}

#[test]
fn split_drops_a_closed_empty_span() {
    assert_eq!(split_args("''"), Vec::<String>::new());
    assert_eq!(split_args("a '' b"), strings(&["a", "b"]));
}

#[test]
fn split_sees_unicode_white_space() {
    assert_eq!(split_args("a\u{a0}b\u{3000}c"), strings(&["a", "b", "c"]));
}

#[test]
fn classify_no_words_is_not_found() {
    assert_eq!(classify(&strings(&[])), CommandKind::NotFound);
}

#[test]
fn classify_echo_joins_the_rest() {
    assert_eq!(
        classify(&strings(&["echo"])),
        CommandKind::Echo { display_string: String::new() }
    );
    assert_eq!(
        classify(&strings(&["echo", "hi", "there"])),
        CommandKind::Echo { display_string: "hi there".to_string() }
    );
    assert_eq!(
        classify(&strings(&["echo", "a   b", "c"])),
        CommandKind::Echo { display_string: "a   b c".to_string() }
    );
}

#[test]
fn classify_cd_alone_is_external() {
    assert_eq!(
        classify(&strings(&["cd"])),
        CommandKind::External { program: "cd".to_string(), args: vec![] }
    );
}

#[test]
fn classify_cd_with_two_targets_is_external() {
    assert_eq!(
        classify(&strings(&["cd", "a", "b"])),
        CommandKind::External { program: "cd".to_string(), args: strings(&["a", "b"]) }
    );
}

#[test]
fn classify_cd_with_one_target() {
    assert_eq!(
        classify(&strings(&["cd", "/tmp"])),
        CommandKind::Cd { directory: "/tmp".to_string() }
    );
    assert_eq!(
        classify(&strings(&["cd", "~/sub"])),
        CommandKind::Cd { directory: "~/sub".to_string() }
    );
}

#[test]
fn classify_exit_ignores_what_follows() {
    assert_eq!(classify(&strings(&["exit"])), CommandKind::Exit);
    assert_eq!(classify(&strings(&["exit", "0"])), CommandKind::Exit);
    assert_eq!(classify(&strings(&["exit", "1", "now"])), CommandKind::Exit);
}

#[test]
fn classify_type_takes_exactly_one_name() {
    assert_eq!(
        classify(&strings(&["type", "ls"])),
        CommandKind::Type { command_name: "ls".to_string() }
    );
    assert_eq!(
        classify(&strings(&["type"])),
        CommandKind::External { program: "type".to_string(), args: vec![] }
    );
    assert_eq!(
        classify(&strings(&["type", "a", "b"])),
        CommandKind::External { program: "type".to_string(), args: strings(&["a", "b"]) }
    );
}

#[test]
fn classify_pwd_takes_no_argument() {
    assert_eq!(classify(&strings(&["pwd"])), CommandKind::Pwd);
    assert_eq!(
        classify(&strings(&["pwd", "x"])),
        CommandKind::External { program: "pwd".to_string(), args: strings(&["x"]) }
    );
}

#[test]
fn classify_external_keeps_program_out_of_args() {
    assert_eq!(
        classify(&strings(&["ls", "-l", "my dir"])),
        CommandKind::External { program: "ls".to_string(), args: strings(&["-l", "my dir"]) }
    );
}

#[test]
fn parse_splits_then_classifies() {
    assert_eq!(
        CommandKind::parse("echo   hello   world"),
        CommandKind::Echo { display_string: "hello world".to_string() }
    );
    assert_eq!(
        CommandKind::parse("echo 'a   b'"),
        CommandKind::Echo { display_string: "a   b".to_string() }
    );
    assert_eq!(CommandKind::parse(""), CommandKind::NotFound);
    assert_eq!(CommandKind::parse("'exit' now"), CommandKind::Exit);
    assert_eq!(
        CommandKind::parse("nope123"),
        CommandKind::External { program: "nope123".to_string(), args: vec![] }
    );
}

#[test]
fn split_of_a_plain_word_is_the_word() {
    assert_eq!(split_args("--colour=auto"), strings(&["--colour=auto"]));
}

#[test]
fn split_at_outer_white_space_splits_both_sides() {
    let before = "a 'b c'";
    let after = "d \"e  f\" g";
    let mut both = split_args(before);
    both.extend(split_args(after));
    assert_eq!(split_args(&format!("{}\t{}", before, after)), both);
    assert_eq!(both, strings(&["a", "b c", "d", "e  f", "g"]));
}

#[test]
fn split_span_after_a_word_extends_the_word() {
    assert_eq!(split_args("ab'c d'"), strings(&["abc d"]));
    assert_eq!(split_args("ab'c d'e f"), strings(&["abc de", "f"]));
}

#[test]
fn split_gives_no_empty_word_without_an_open_quote() {
    for line in ["  a  b ", "'' ''", "a''b \"\" c", "\t"] {
        assert!(split_args(line).iter().all(|w| !w.is_empty()));
    }
}

#[test]
fn splitter_goes_by_the_flag_it_is_given() {
    let mut s = Splitter::new();
    for (c, white) in [('a', false), ('_', true), ('b', false), (' ', false), ('c', false)] {
        s = s.feed(c, white);
    }
    assert_eq!(s.finish(), strings(&["a", "b c"]));
}

#[test]
fn splitter_copies_white_space_inside_a_span() {
    let mut s = Splitter::new();
    for (c, white) in [('"', false), (' ', true), ('\'', false), ('"', false), ('x', false)] {
        s = s.feed(c, white);
    }
    assert_eq!(s.quote, None);
    assert_eq!(s.finish(), strings(&[" 'x"]));
}

#[test]
fn splitter_that_read_nothing_has_no_word() {
    assert_eq!(Splitter::new().finish(), Vec::<String>::new());
}
