use audio_batch::decimal::usize_to_string;
use audio_batch::events::{make_done_line, make_err_line, make_ok_line};
use audio_batch::paths::{add_long_path_prefix, join_with, output_path_of, prepare_input};

fn s(t: &str) -> String {
    t.to_string()
}

#[test]
fn output_path_simple() {
    let r = output_path_of(&s("out"), &s("music/a.wav"), &s("mp3"));
    assert_eq!(r, "out/a.mp3");
}

#[test]
fn output_path_dir_with_trailing_slash() {
    let r = output_path_of(&s("out/"), &s("a.wav"), &s("flac"));
    assert_eq!(r, "out/a.flac");
}

#[test]
fn output_path_empty_dir() {
    let r = output_path_of(&s(""), &s("a.wav"), &s("mp3"));
    assert_eq!(r, "a.mp3");
}

#[test]
fn output_path_hidden_file_keeps_name() {
    let r = output_path_of(&s("out"), &s("dir/.config"), &s("mp3"));
    assert_eq!(r, "out/.config.mp3");
}

#[test]
fn output_path_multi_dot_strips_last_extension() {
    let r = output_path_of(&s("out"), &s("x/a.b.wav"), &s("mp3"));
    assert_eq!(r, "out/a.b.mp3");
}

#[test]
fn output_path_no_extension() {
    let r = output_path_of(&s("out"), &s("dir/song"), &s("opus"));
    assert_eq!(r, "out/song.opus");
}

#[test]
fn output_path_backslash_separators() {
    let r = output_path_of(&s("out"), &s("C:\\music\\a.wav"), &s("m4a"));
    assert_eq!(r, "out/a.m4a");
}

#[test]
fn join_with_plain_dir() {
    assert_eq!(join_with(&s("out"), &s("x.mp3")), "out/x.mp3");
}

#[test]
fn join_with_empty_dir() {
    assert_eq!(join_with(&s(""), &s("x.mp3")), "x.mp3");
}

#[test]
fn join_with_trailing_separator() {
    assert_eq!(join_with(&s("out/"), &s("x.mp3")), "out/x.mp3");
}

#[test]
fn long_path_prefix_on_drive_path() {
    let r = add_long_path_prefix(&s("C:\\music\\a.wav"));
    assert_eq!(r, "\\\\?\\C:\\music\\a.wav");
}

#[test]
fn long_path_prefix_already_present() {
    let r = add_long_path_prefix(&s("\\\\?\\C:\\a.wav"));
    assert_eq!(r, "\\\\?\\C:\\a.wav");
}

#[test]
fn long_path_prefix_relative_path_unchanged() {
    let r = add_long_path_prefix(&s("music/a.wav"));
    assert_eq!(r, "music/a.wav");
}

#[test]
fn prepare_input_ascii_unchanged() {
    let r = prepare_input(&s("music/a.wav"), false);
    assert_eq!(r, "music/a.wav");
}

#[test]
fn prepare_input_composes_to_nfc() {
    // 'e' followed by a combining acute accent composes to a single char.
    let r = prepare_input(&s("e\u{0301}.wav"), false);
    assert_eq!(r, "\u{00e9}.wav");
}

#[test]
fn prepare_input_with_long_paths() {
    let r = prepare_input(&s("C:\\a.wav"), true);
    assert_eq!(r, "\\\\?\\C:\\a.wav");
}

#[test]
fn decimal_zero() {
    assert_eq!(usize_to_string(0), "0");
}

#[test]
fn decimal_single_digit() {
    assert_eq!(usize_to_string(7), "7");
}

#[test]
fn decimal_round_number() {
    assert_eq!(usize_to_string(10), "10");
}

#[test]
fn decimal_many_digits() {
    assert_eq!(usize_to_string(1234567890), "1234567890");
}

#[test]
fn ok_line_text() {
    let r = make_ok_line(&s("a.wav"), &s("out/a.mp3"));
    assert_eq!(r, "OK: a.wav -> out/a.mp3\n");
}

#[test]
fn err_line_text() {
    let r = make_err_line(&s("a.wav"), &s("exit=1"));
    assert_eq!(r, "ERR: a.wav exit=1\n");
}

#[test]
fn done_line_text() {
    let r = make_done_line(2, 0);
    assert_eq!(r, "=== Done: success=2 fail=0 ===\n");
}
