use verdaccio_control::{clean_message, strip_ansi_codes, trim_text};

#[test]
fn plain_text_is_untouched() {
    assert_eq!(strip_ansi_codes("hello world"), "hello world");
    assert_eq!(strip_ansi_codes(""), "");
}

#[test]
fn one_color_sequence_is_removed() {
    assert_eq!(strip_ansi_codes("\x1b[31mred\x1b[0m"), "red");
}

#[test]
fn many_sequences_are_removed() {
    assert_eq!(
        strip_ansi_codes("\x1b[1m\x1b[32mok\x1b[0m done \x1b[33;1mwarn\x1b[0m"),
        "ok done warn"
    );
}

#[test]
fn parameters_with_semicolons_are_removed() {
    assert_eq!(strip_ansi_codes("a\x1b[38;5;196mb"), "ab");
    assert_eq!(strip_ansi_codes("a\x1b[mb"), "ab");
}

#[test]
fn truncated_sequences_are_left_in_place() {
    assert_eq!(strip_ansi_codes("tail\x1b[31"), "tail\x1b[31");
    assert_eq!(strip_ansi_codes("tail\x1b["), "tail\x1b[");
    assert_eq!(strip_ansi_codes("tail\x1b"), "tail\x1b");
}

#[test]
fn only_graphic_rendition_sequences_are_removed() {
    // a clear-screen sequence ends in J, not m, and stays
    assert_eq!(strip_ansi_codes("\x1b[2Jtext"), "\x1b[2Jtext");
    // a letter inside the parameters breaks the pattern
    assert_eq!(strip_ansi_codes("\x1b[3a1m"), "\x1b[3a1m");
}

#[test]
fn a_second_escape_restarts_the_scan() {
    assert_eq!(strip_ansi_codes("\x1b\x1b[31mx"), "\x1bx");
}

#[test]
fn trim_removes_surrounding_whitespace() {
    assert_eq!(trim_text("  spaced  "), "spaced");
    assert_eq!(trim_text("\r\nline\r\n"), "line");
    assert_eq!(trim_text("\t"), "");
    assert_eq!(trim_text(""), "");
    assert_eq!(trim_text("inner  space"), "inner  space");
}

#[test]
fn clean_message_strips_then_trims() {
    assert_eq!(clean_message("  \x1b[31m hello \x1b[0m  "), "hello");
    assert_eq!(clean_message("\x1b[31m   \x1b[0m"), "");
}
