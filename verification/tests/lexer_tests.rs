use tape::lexer::Lexer;
use tape::token::is_command;
use tape::token::is_modifier;
use tape::token::is_setting;
use tape::token::lookup_identifier;
use tape::token::to_camel;
use tape::token::Token;
use tape::token::TokenType;

fn lex_all(src: &str) -> Vec<Token> {
    let mut lexer = Lexer::new(src);
    let mut out = Vec::new();
    loop {
        let t = lexer.next_token();
        let done = t.token_type == TokenType::Eof;
        out.push(t);
        if done {
            break;
        }
    }
    out
}

fn kinds(src: &str) -> Vec<TokenType> {
    lex_all(src).into_iter().map(|t| t.token_type).collect()
}

#[test]
fn operators_lex_one_character_each() {
    assert_eq!(
        kinds("@ = ] [ - % ^ \\ +"),
        vec![
            TokenType::At,
            TokenType::Equal,
            TokenType::RightBracket,
            TokenType::LeftBracket,
            TokenType::Minus,
            TokenType::Percent,
            TokenType::Caret,
            TokenType::Backslash,
            TokenType::Plus,
            TokenType::Eof,
        ]
    );
}

#[test]
fn comment_runs_to_end_of_line() {
    let ts = lex_all("# hello\nShow");
    assert_eq!(ts[0].token_type, TokenType::Comment);
    assert_eq!(ts[0].literal, " hello");
    assert_eq!(ts[1].token_type, TokenType::Show);
}

#[test]
fn json_blob_keeps_braces() {
    let ts = lex_all("{\"a\": 1}");
    assert_eq!(ts[0].token_type, TokenType::Json);
    assert_eq!(ts[0].literal, "{\"a\": 1}");
}

#[test]
fn unterminated_json_still_closes_its_literal() {
    let ts = lex_all("{abc");
    assert_eq!(ts[0].token_type, TokenType::Json);
    assert_eq!(ts[0].literal, "{abc}");
}

#[test]
fn three_quote_styles_give_strings() {
    for src in ["\"hi\"", "'hi'", "`hi`"] {
        let ts = lex_all(src);
        assert_eq!(ts[0].token_type, TokenType::String, "{src}");
        assert_eq!(ts[0].literal, "hi", "{src}");
    }
}

#[test]
fn unterminated_string_ends_at_line_end() {
    let ts = lex_all("\"ab\ncd");
    assert_eq!(ts[0].token_type, TokenType::String);
    assert_eq!(ts[0].literal, "ab");
    assert_eq!(ts[1].token_type, TokenType::String);
    assert_eq!(ts[1].literal, "cd");
}

#[test]
fn slashes_delimit_regexes() {
    let ts = lex_all("/ready/");
    assert_eq!(ts[0].token_type, TokenType::Regex);
    assert_eq!(ts[0].literal, "ready");
}

#[test]
fn numbers_scan_digits_and_dots_greedily() {
    let ts = lex_all("123 1.5 0.0.0 .5");
    assert_eq!(ts[0].literal, "123");
    assert_eq!(ts[1].literal, "1.5");
    assert_eq!(ts[2].literal, "0.0.0");
    assert_eq!(ts[3].literal, ".5");
    for t in &ts[0..4] {
        assert_eq!(t.token_type, TokenType::Number);
    }
}

#[test]
fn keywords_lex_by_exact_spelling() {
    assert_eq!(
        kinds("Set Sleep Type true false ms s m px em Wait Source"),
        vec![
            TokenType::SetCmd,
            TokenType::Sleep,
            TokenType::Type,
            TokenType::Boolean,
            TokenType::Boolean,
            TokenType::Milliseconds,
            TokenType::Seconds,
            TokenType::Minutes,
            TokenType::Px,
            TokenType::Em,
            TokenType::Wait,
            TokenType::Source,
            TokenType::Eof,
        ]
    );
}

#[test]
fn bare_identifiers_become_strings() {
    let ts = lex_all("foo.bar-baz_qux/x%y");
    assert_eq!(ts[0].token_type, TokenType::String);
    assert_eq!(ts[0].literal, "foo.bar-baz_qux/x%y");
    assert_eq!(ts[1].token_type, TokenType::Eof);
}

#[test]
fn unrecognized_characters_are_illegal_tokens() {
    let ts = lex_all("!");
    assert_eq!(ts[0].token_type, TokenType::Illegal);
    assert_eq!(ts[0].literal, "!");
}

#[test]
fn lines_and_columns_are_tracked() {
    let ts = lex_all("Type hi\nShow");
    assert_eq!((ts[0].line, ts[0].column), (1, 1));
    assert_eq!((ts[1].line, ts[1].column), (1, 6));
    assert_eq!((ts[2].line, ts[2].column), (2, 1));
}

#[test]
fn end_of_input_token() {
    let ts = lex_all("");
    assert_eq!(ts.len(), 1);
    assert_eq!(ts[0].token_type, TokenType::Eof);
    assert_eq!(ts[0].literal, "\u{0}");
    assert_eq!((ts[0].line, ts[0].column), (0, 0));
}

#[test]
fn relexing_a_literal_reproduces_its_token() {
    // one concrete instance per re-lexable family
    for src in ["123", ".5", "{a}", "Set", "true", "PageUp", "@", "!"] {
        let first = lex_all(src).remove(0);
        let again = lex_all(&first.literal).remove(0);
        assert_eq!(again.token_type, first.token_type, "{src}");
        assert_eq!(again.literal, first.literal, "{src}");
    }
}

#[test]
fn keyword_lookup() {
    assert_eq!(lookup_identifier("FontSize"), TokenType::FontSize);
    assert_eq!(lookup_identifier("ms"), TokenType::Milliseconds);
    assert_eq!(lookup_identifier("fontsize"), TokenType::String);
    assert_eq!(lookup_identifier("Home"), TokenType::String);
}

#[test]
fn kind_classification() {
    assert!(is_setting(&TokenType::FontSize));
    assert!(is_setting(&TokenType::Shell));
    assert!(!is_setting(&TokenType::Type));
    assert!(is_command(&TokenType::Type));
    assert!(is_command(&TokenType::Wait));
    assert!(!is_command(&TokenType::FontSize));
    assert!(is_modifier(&TokenType::Alt));
    assert!(is_modifier(&TokenType::Shift));
    assert!(!is_modifier(&TokenType::Ctrl));
}

#[test]
fn camel_casing() {
    assert_eq!(to_camel("hello_world"), "HelloWorld");
    assert_eq!(to_camel("page_up"), "PageUp");
    assert_eq!(to_camel("PageUp"), "Pageup");
    assert_eq!(to_camel(""), "");
    assert_eq!(to_camel("a__b"), "AB");
}

#[test]
fn kind_display_names() {
    assert_eq!(TokenType::At.display_name(), "@");
    assert_eq!(TokenType::Minus.display_name(), "-");
    assert_eq!(TokenType::PageUp.display_name(), "Pageup");
    assert_eq!(TokenType::FontSize.display_name(), "Fontsize");
    assert_eq!(TokenType::Eof.display_name(), "Eof");
}
