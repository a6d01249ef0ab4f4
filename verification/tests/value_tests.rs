use tape::command::CommandArg;
use tape::command::CommandOption;
use tape::duration::Duration;
use tape::number::dec_string;
use tape::number::parse_decimal;
use tape::number::parse_u32;
use tape::number::Decimal;
use tape::paths::path_extension;
use tape::paths::validate_output_path;
use tape::paths::BurnArgs;

#[test]
fn durations_split_into_seconds_and_millis() {
    let d = Duration::from_millis(1500);
    assert_eq!(d.as_secs(), 1);
    assert_eq!(d.subsec_millis(), 500);
    assert_eq!(d.as_millis(), 1500);
    assert!(!d.is_zero());
    assert!(Duration::default().is_zero());
    assert_eq!(Duration::from_secs(2), Duration::from_millis(2000));
}

#[test]
fn whole_number_parsing() {
    assert_eq!(parse_u32("42"), Some(42));
    assert_eq!(parse_u32("+42"), Some(42));
    assert_eq!(parse_u32("0042"), Some(42));
    assert_eq!(parse_u32(""), None);
    assert_eq!(parse_u32("4.2"), None);
    assert_eq!(parse_u32("-1"), None);
    assert_eq!(parse_u32("4294967295"), Some(u32::MAX));
    assert_eq!(parse_u32("4294967296"), None);
}

#[test]
fn decimal_parsing_is_exact() {
    assert_eq!(parse_decimal("1.5"), Some(Decimal { neg: false, mantissa: 15, scale: 1 }));
    assert_eq!(parse_decimal("2"), Some(Decimal { neg: false, mantissa: 2, scale: 0 }));
    assert_eq!(parse_decimal(".5"), Some(Decimal { neg: false, mantissa: 5, scale: 1 }));
    assert_eq!(parse_decimal("5."), Some(Decimal { neg: false, mantissa: 5, scale: 0 }));
    assert_eq!(parse_decimal("-0.25"), Some(Decimal { neg: true, mantissa: 25, scale: 2 }));
    assert_eq!(parse_decimal("1.2.3"), None);
    assert_eq!(parse_decimal("."), None);
    assert_eq!(parse_decimal("abc"), None);
}

#[test]
fn counts_render_in_decimal() {
    assert_eq!(dec_string(0), "0");
    assert_eq!(dec_string(7), "7");
    assert_eq!(dec_string(120), "120");
    assert_eq!(dec_string(u64::MAX), "18446744073709551615");
}

#[test]
fn path_extensions() {
    assert_eq!(path_extension("a.png"), Some("png".to_string()));
    assert_eq!(path_extension("dir/movie.tar.gz"), Some("gz".to_string()));
    assert_eq!(path_extension("noext"), None);
    assert_eq!(path_extension("dir/"), None);
    assert_eq!(path_extension(".hidden"), None);
    assert_eq!(path_extension("a."), Some("".to_string()));
    assert_eq!(path_extension(""), None);
}

#[test]
fn output_paths_validate_by_extension() {
    assert_eq!(validate_output_path("demo.gif"), Ok("demo.gif".to_string()));
    assert_eq!(validate_output_path("demo.GIF"), Ok("demo.GIF".to_string()));
    assert_eq!(validate_output_path("out/movie.webm"), Ok("out/movie.webm".to_string()));
    let e = validate_output_path("demo.xyz").unwrap_err();
    assert_eq!(
        e,
        "Unsupported output format 'xyz'. Allowed extensions: mp4, mov, avi, mkv, webm, gif, svg, csv"
    );
    let e = validate_output_path("demo").unwrap_err();
    assert_eq!(
        e,
        "Output file 'demo' must have a valid extension. Allowed extensions: mp4, mov, avi, mkv, webm, gif, svg, csv"
    );
}

#[test]
fn burn_args_carry_plain_paths() {
    let a = BurnArgs { input_file: "demo.tape".to_string(), output_file: "demo.gif".to_string() };
    assert_eq!(a.input_file, "demo.tape");
    assert_eq!(a.output_file, "demo.gif");
}

#[test]
fn command_args_render_for_diagnostics() {
    assert_eq!(CommandArg::Repititions(3).render(), "3");
    assert_eq!(CommandArg::Text("hi".to_string()).render(), "\"hi\"");
    assert_eq!(CommandArg::RegexPattern("re".to_string()).render(), "/re/");
    assert_eq!(CommandArg::EnvVarName("HOME".to_string()).render(), "$HOME");
    assert_eq!(CommandArg::Height.render(), "height");
    assert_eq!(CommandArg::FontSize(14).render(), "14pt");
    assert_eq!(CommandArg::Padding(2).render(), "2px");
    assert_eq!(CommandArg::CursorBlink(true).render(), "true");
    assert_eq!(CommandArg::Yes(false).render(), "false");
}

#[test]
fn command_args_join_with_spaces() {
    let args = vec![
        CommandArg::Repititions(3),
        CommandArg::Text("hi".to_string()),
        CommandArg::Height,
    ];
    assert_eq!(CommandArg::join_args(&args), "3 \"hi\" height");
    assert_eq!(CommandArg::join_args(&[]), "");
}

#[test]
fn command_options_render_for_diagnostics() {
    assert_eq!(CommandOption::Rate(Duration::from_millis(150)).render(), "150ms");
    assert_eq!(CommandOption::Scale(2).render(), "2scale");
    assert_eq!(CommandOption::Format(".gif".to_string()).render(), ".gif");
    assert_eq!(CommandOption::TypingSpeed(60).render(), "60wpm");
}
