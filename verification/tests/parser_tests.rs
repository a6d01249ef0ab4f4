use tape::command::Commands;
use tape::command::ParseError;
use tape::command::Setting;
use tape::command::WaitMode;
use tape::duration::Duration;
use tape::parse_source;
use tape::token::TokenType;

fn parse(src: &str) -> (Vec<Commands>, Vec<ParseError>) {
    parse_source(src)
}

fn parse_one(src: &str) -> Commands {
    let (cmds, errs) = parse(src);
    assert!(errs.is_empty(), "unexpected errors: {errs:?}");
    assert_eq!(cmds.len(), 1, "expected one command: {cmds:?}");
    cmds.into_iter().next().unwrap()
}

fn only_error(src: &str) -> ParseError {
    let (_, errs) = parse(src);
    assert_eq!(errs.len(), 1, "expected one error: {errs:?}");
    errs.into_iter().next().unwrap()
}

// The first error of a source whose failed command leaves tokens behind;
// the leftovers are re-dispatched and may add trailing errors of their
// own (the documented skip-one-token recovery).
fn first_error(src: &str) -> ParseError {
    let (_, errs) = parse(src);
    assert!(!errs.is_empty(), "expected an error");
    errs.into_iter().next().unwrap()
}

#[test]
fn type_plain_string() {
    match parse_one("Type \"hi\"") {
        Commands::Type(c) => {
            assert_eq!(c.text, "hi");
            assert_eq!(c.rate, None);
        },
        other => panic!("wrong command: {other:?}"),
    }
}

#[test]
fn type_with_rate() {
    match parse_one("Type@50ms \"hi\"") {
        Commands::Type(c) => {
            assert_eq!(c.text, "hi");
            assert_eq!(c.rate, Some(Duration::from_millis(50)));
        },
        other => panic!("wrong command: {other:?}"),
    }
}

#[test]
fn type_joins_consecutive_strings_with_spaces() {
    match parse_one("Type \"a\" \"b\" \"c\"") {
        Commands::Type(c) => assert_eq!(c.text, "a b c"),
        other => panic!("wrong command: {other:?}"),
    }
}

#[test]
fn type_without_string_is_an_error() {
    let e = only_error("Type");
    assert_eq!(e.message, "Type expects string");
}

#[test]
fn sleep_two_seconds() {
    match parse_one("Sleep 2s") {
        Commands::Sleep(c) => assert_eq!(c.duration, Some(Duration::from_secs(2))),
        other => panic!("wrong command: {other:?}"),
    }
}

#[test]
fn duration_unit_semantics() {
    let cases = [("Sleep 500ms", 500u128), ("Sleep 2s", 2000), ("Sleep 1m", 60000), (
        "Sleep 3",
        3000,
    )];
    for (src, ms) in cases {
        match parse_one(src) {
            Commands::Sleep(c) => {
                assert_eq!(c.duration.unwrap().as_millis(), ms, "{src}");
            },
            other => panic!("wrong command for {src}: {other:?}"),
        }
    }
}

#[test]
fn sleep_without_time_has_no_duration() {
    match parse_one("Sleep") {
        Commands::Sleep(c) => assert_eq!(c.duration, None),
        other => panic!("wrong command: {other:?}"),
    }
}

#[test]
fn malformed_number_in_time_position_is_recorded_not_fatal() {
    let (cmds, errs) = parse("Sleep 0.0.0");
    assert_eq!(cmds.len(), 1);
    match &cmds[0] {
        Commands::Sleep(c) => assert_eq!(c.duration, None),
        other => panic!("wrong command: {other:?}"),
    }
    assert_eq!(errs.len(), 1);
    assert_eq!(errs[0].message, "Invalid number: 0.0.0");
}

#[test]
fn ctrl_modifier_before_key() {
    match parse_one("Ctrl+Shift+C") {
        Commands::Ctrl(c) => {
            assert_eq!(c.keys, vec!["Shift".to_string(), "C".to_string()]);
            assert_eq!(c.rate, None);
        },
        other => panic!("wrong command: {other:?}"),
    }
}

#[test]
fn ctrl_modifier_after_key_is_an_error() {
    let (_, errs) = parse("Ctrl+C+Shift");
    assert_eq!(errs[0].message, "Modifiers must come before other keys");
    // the stray Shift token is re-dispatched and fails on its own
    assert_eq!(errs.len(), 2);
}

#[test]
fn ctrl_without_keys_is_an_error() {
    let e = only_error("Ctrl");
    assert_eq!(e.message, "Expected at least one key after Ctrl");
}

#[test]
fn ctrl_special_terminal_keys() {
    match parse_one("Ctrl+Alt+Enter") {
        Commands::Ctrl(c) => assert_eq!(c.keys, vec!["Alt".to_string(), "Enter".to_string()]),
        other => panic!("wrong command: {other:?}"),
    }
}

#[test]
fn alt_takes_exactly_one_key() {
    match parse_one("Alt+Tab") {
        Commands::Alt(c) => assert_eq!(c.keys, vec!["Tab".to_string()]),
        other => panic!("wrong command: {other:?}"),
    }
    let e = only_error("Alt Tab");
    assert_eq!(e.message, "Expected '+' after Alt, got Tab");
}

#[test]
fn shift_takes_exactly_one_key() {
    match parse_one("Shift+x") {
        Commands::Shift(c) => assert_eq!(c.keys, vec!["x".to_string()]),
        other => panic!("wrong command: {other:?}"),
    }
}

#[test]
fn keypress_with_rate_and_repeat() {
    match parse_one("Up@500ms 3") {
        Commands::Key(c) => {
            assert_eq!(c.key, TokenType::Up);
            assert_eq!(c.rate, Some(Duration::from_millis(500)));
            assert_eq!(c.repeat_count, 3);
        },
        other => panic!("wrong command: {other:?}"),
    }
}

#[test]
fn keypress_defaults_to_once() {
    match parse_one("Enter") {
        Commands::Key(c) => {
            assert_eq!(c.key, TokenType::Enter);
            assert_eq!(c.rate, None);
            assert_eq!(c.repeat_count, 1);
        },
        other => panic!("wrong command: {other:?}"),
    }
}

#[test]
fn set_font_size() {
    match parse_one("Set FontSize 42") {
        Commands::SetCmd(c) => assert_eq!(c.setting, Setting::FontSize(42)),
        other => panic!("wrong command: {other:?}"),
    }
}

#[test]
fn set_letter_spacing_keeps_decimal_exactly() {
    match parse_one("Set LetterSpacing 1.5") {
        Commands::SetCmd(c) => match c.setting {
            Setting::LetterSpacing(d) => {
                assert!(!d.neg);
                assert_eq!(d.mantissa, 15);
                assert_eq!(d.scale, 1);
            },
            other => panic!("wrong setting: {other:?}"),
        },
        other => panic!("wrong command: {other:?}"),
    }
}

#[test]
fn set_loop_offset_accepts_percent() {
    for src in ["Set LoopOffset 25%", "Set LoopOffset 25"] {
        match parse_one(src) {
            Commands::SetCmd(c) => match c.setting {
                Setting::LoopOffset(d) => {
                    assert_eq!(d.mantissa, 25, "{src}");
                    assert_eq!(d.scale, 0, "{src}");
                },
                other => panic!("wrong setting for {src}: {other:?}"),
            },
            other => panic!("wrong command for {src}: {other:?}"),
        }
    }
}

#[test]
fn set_shell_accepts_string_or_json() {
    match parse_one("Set Shell bash") {
        Commands::SetCmd(c) => assert_eq!(c.setting, Setting::Shell("bash".to_string())),
        other => panic!("wrong command: {other:?}"),
    }
    match parse_one("Set Shell {\"sh\": 1}") {
        Commands::SetCmd(c) => assert_eq!(c.setting, Setting::Shell("{\"sh\": 1}".to_string())),
        other => panic!("wrong command: {other:?}"),
    }
    let e = first_error("Set Shell =");
    assert_eq!(e.message, "Set Shell expects string or JSON, got =");
}

#[test]
fn set_typing_speed_units() {
    match parse_one("Set TypingSpeed 50ms") {
        Commands::SetCmd(c) => assert_eq!(c.setting, Setting::TypingSpeed(Duration::from_millis(50))),
        other => panic!("wrong command: {other:?}"),
    }
    // minutes are not a typing-speed unit: the number reads as seconds
    // and the stray unit token becomes its own (invalid) command
    let (cmds, errs) = parse("Set TypingSpeed 1m");
    assert_eq!(cmds.len(), 1);
    match &cmds[0] {
        Commands::SetCmd(c) => assert_eq!(c.setting, Setting::TypingSpeed(Duration::from_secs(1))),
        other => panic!("wrong command: {other:?}"),
    }
    assert_eq!(errs.len(), 1);
    assert_eq!(errs[0].message, "Invalid command: m");
}

#[test]
fn set_wait_timeout_takes_minutes() {
    match parse_one("Set WaitTimeout 1m") {
        Commands::SetCmd(c) => assert_eq!(c.setting, Setting::WaitTimeout(Duration::from_secs(60))),
        other => panic!("wrong command: {other:?}"),
    }
}

#[test]
fn set_wait_pattern_must_compile() {
    match parse_one("Set WaitPattern \"ready.*\"") {
        Commands::SetCmd(c) => assert_eq!(c.setting, Setting::WaitPattern("ready.*".to_string())),
        other => panic!("wrong command: {other:?}"),
    }
    let e = first_error("Set WaitPattern \"(\"");
    assert_eq!(e.message, "Invalid regexp pattern: (");
}

#[test]
fn set_cursor_blink_takes_booleans_only() {
    match parse_one("Set CursorBlink true") {
        Commands::SetCmd(c) => assert_eq!(c.setting, Setting::CursorBlink(true)),
        other => panic!("wrong command: {other:?}"),
    }
    match parse_one("Set CursorBlink false") {
        Commands::SetCmd(c) => assert_eq!(c.setting, Setting::CursorBlink(false)),
        other => panic!("wrong command: {other:?}"),
    }
    let e = first_error("Set CursorBlink yes");
    assert_eq!(e.message, "Set CursorBlink expects true/false, got yes");
}

#[test]
fn set_unknown_setting_is_an_error() {
    let e = first_error("Set Bogus 1");
    assert_eq!(e.message, "Unknown setting: Bogus");
}

#[test]
fn set_font_size_rejects_bad_number() {
    let (_, errs) = parse("Set FontSize big");
    assert!(!errs.is_empty());
    assert_eq!(errs[0].message, "Invalid number: big");
}

#[test]
fn wait_with_mode_timeout_and_pattern() {
    match parse_one("Wait+Screen@5s /ready/") {
        Commands::Wait(c) => {
            assert_eq!(c.mode, WaitMode::Screen);
            assert_eq!(c.timeout, Some(Duration::from_secs(5)));
            assert_eq!(c.pattern, Some("ready".to_string()));
        },
        other => panic!("wrong command: {other:?}"),
    }
}

#[test]
fn wait_defaults_to_line_mode() {
    match parse_one("Wait") {
        Commands::Wait(c) => {
            assert_eq!(c.mode, WaitMode::Line);
            assert_eq!(c.timeout, None);
            assert_eq!(c.pattern, None);
        },
        other => panic!("wrong command: {other:?}"),
    }
}

#[test]
fn wait_rejects_unknown_mode() {
    let e = first_error("Wait+Banana");
    assert_eq!(e.message, "Wait+ expects Line or Screen");
}

#[test]
fn wait_rejects_bad_regex() {
    let e = only_error("Wait /(/");
    assert_eq!(e.message, "Invalid regular expression '(': invalid regex");
}

#[test]
fn output_takes_format_from_extension() {
    match parse_one("Output demo.gif") {
        Commands::Output(c) => {
            assert_eq!(c.path, "demo.gif");
            assert_eq!(c.format, ".gif");
        },
        other => panic!("wrong command: {other:?}"),
    }
    match parse_one("Output a.tar.gz") {
        Commands::Output(c) => assert_eq!(c.format, ".gz"),
        other => panic!("wrong command: {other:?}"),
    }
}

#[test]
fn output_folder_means_screenshots() {
    match parse_one("Output frames/") {
        Commands::Output(c) => {
            assert_eq!(c.path, "frames/");
            assert_eq!(c.format, ".png");
        },
        other => panic!("wrong command: {other:?}"),
    }
}

#[test]
fn output_without_extension_or_slash_is_an_error() {
    let (cmds, errs) = parse("Output foo");
    assert!(cmds.is_empty());
    // the unconsumed path token is then re-dispatched: a documented quirk
    assert_eq!(errs[0].message, "Expected folder with trailing slash");
}

#[test]
fn screenshot_requires_png() {
    match parse_one("Screenshot shot.png") {
        Commands::Screenshot(c) => assert_eq!(c.path, "shot.png"),
        other => panic!("wrong command: {other:?}"),
    }
    let e = only_error("Screenshot shot.jpg");
    assert_eq!(e.message, "Expected file with .png extension");
}

#[test]
fn require_takes_one_program() {
    match parse_one("Require ffmpeg") {
        Commands::Require(c) => assert_eq!(c.program, "ffmpeg"),
        other => panic!("wrong command: {other:?}"),
    }
    let e = only_error("Require");
    assert_eq!(e.message, "Require expects one string");
}

#[test]
fn env_takes_variable_and_value() {
    match parse_one("Env FOO \"bar\"") {
        Commands::Env(c) => {
            assert_eq!(c.variable, "FOO");
            assert_eq!(c.value, "bar");
        },
        other => panic!("wrong command: {other:?}"),
    }
}

#[test]
fn copy_joins_strings_like_type() {
    match parse_one("Copy \"a\" \"b\"") {
        Commands::Copy(c) => assert_eq!(c.text, "a b"),
        other => panic!("wrong command: {other:?}"),
    }
}

#[test]
fn paste_hide_show_take_no_arguments() {
    assert!(matches!(parse_one("Paste"), Commands::Paste));
    assert!(matches!(parse_one("Hide"), Commands::Hide));
    assert!(matches!(parse_one("Show"), Commands::Show));
}

#[test]
fn comments_and_blank_lines_produce_nothing() {
    let (cmds, errs) = parse("# intro\n\n# more\nShow\n");
    assert_eq!(cmds.len(), 1);
    assert!(matches!(cmds[0], Commands::Show));
    assert!(errs.is_empty());
}

#[test]
fn unknown_command_is_an_error() {
    let e = only_error("Frobnicate");
    assert_eq!(e.message, "Invalid command: Frobnicate");
}

#[test]
fn one_bad_line_does_not_stop_later_lines() {
    let (cmds, errs) = parse("Frobnicate\nType \"ok\"\nShow");
    assert_eq!(errs.len(), 1);
    assert_eq!(errs[0].message, "Invalid command: Frobnicate");
    assert_eq!(cmds.len(), 2);
    match &cmds[0] {
        Commands::Type(c) => assert_eq!(c.text, "ok"),
        other => panic!("wrong command: {other:?}"),
    }
    assert!(matches!(cmds[1], Commands::Show));
}

#[test]
fn empty_source_parses_to_nothing() {
    let (cmds, errs) = parse("");
    assert!(cmds.is_empty());
    assert!(errs.is_empty());
}

#[test]
fn a_whole_script() {
    let src = "# demo\nSet FontSize 14\nSet TypingSpeed 40ms\nType \"echo hello\"\nEnter\nSleep 500ms\nScreenshot out.png\n";
    let (cmds, errs) = parse(src);
    assert!(errs.is_empty(), "{errs:?}");
    assert_eq!(cmds.len(), 6);
}

#[test]
fn error_location_renders_for_display() {
    let (_, errs) = parse("Output foo");
    assert_eq!(errs[0].token.line, 1);
    assert_eq!(errs[0].token.column, 1);
    assert_eq!(errs[0].render(), " 1:1  │ Expected folder with trailing slash");
}

#[test]
fn env_value_must_be_a_string() {
    let e = first_error("Env FOO 5");
    assert_eq!(e.message, "FOO expects string");
}

#[test]
fn output_requires_a_path() {
    let e = only_error("Output");
    assert_eq!(e.message, "Expected file path after output");
}

#[test]
fn screenshot_requires_a_path() {
    let e = only_error("Screenshot");
    assert_eq!(e.message, "Expected path after Screenshot");
}

#[test]
fn ctrl_rejects_long_or_unknown_keys() {
    let e = first_error("Ctrl+ab");
    assert_eq!(e.message, "Invalid Ctrl key: ab");
    let e = first_error("Ctrl+Wait");
    assert_eq!(e.message, "Invalid Ctrl key: Wait");
}

#[test]
fn alt_rejects_operator_keys() {
    let e = first_error("Alt+=");
    assert_eq!(e.message, "Invalid Alt key: =");
}

#[test]
fn missing_time_after_rate_marker_is_recorded() {
    let (cmds, errs) = parse("Type@ \"hi\"");
    assert_eq!(errs.len(), 1);
    assert_eq!(errs[0].message, "Expected time after @");
    assert_eq!(cmds.len(), 1);
    match &cmds[0] {
        Commands::Type(c) => {
            assert_eq!(c.text, "hi");
            assert_eq!(c.rate, None);
        },
        other => panic!("wrong command: {other:?}"),
    }
}

#[test]
fn text_may_hold_any_characters() {
    match parse_one("Type \"héllo wörld\"") {
        Commands::Type(c) => assert_eq!(c.text, "héllo wörld"),
        other => panic!("wrong command: {other:?}"),
    }
}

#[test]
fn ctrl_counts_key_length_in_characters() {
    match parse_one("Ctrl+é") {
        Commands::Ctrl(c) => assert_eq!(c.keys, vec!["é".to_string()]),
        other => panic!("wrong command: {other:?}"),
    }
}
