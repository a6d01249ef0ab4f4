//! The parser: a recursive-descent engine with two-token lookahead that
//! drives the lexer and produces a flat sequence of typed commands plus
//! any parse errors, never failing fatally — one malformed command must
//! not block parsing of the rest of the script.
//!
//! The behaviour is specified exactly, over the token stream of the
//! source: `spec_parse` says which commands and which errors come out of
//! every stream, and each sub-parser mirrors one command grammar.  On a
//! failed command the top-level loop records the error and then advances
//! by a single token, so recovery granularity is "skip one token", not
//! "skip to the next command"; spare tokens of a failed command may be
//! re-dispatched as commands of their own, a documented quirk.

use vstd::prelude::*;
use vstd::string::*;

use crate::command::CommandsV;
use crate::command::Commands;
use crate::command::CopyCommand;
use crate::command::CopyCommandV;
use crate::command::CtrlCommand;
use crate::command::CtrlCommandV;
use crate::command::EnvCommand;
use crate::command::EnvCommandV;
use crate::command::KeyCommand;
use crate::command::KeyCommandV;
use crate::command::OutputCommand;
use crate::command::OutputCommandV;
use crate::command::ParseError;
use crate::command::RequireCommand;
use crate::command::RequireCommandV;
use crate::command::ScreenshotCommand;
use crate::command::ScreenshotCommandV;
use crate::command::SetCommand;
use crate::command::SetCommandV;
use crate::command::Setting;
use crate::command::SettingV;
use crate::command::SleepCommand;
use crate::command::SleepCommandV;
use crate::command::SpecError;
use crate::command::TypeCommand;
use crate::command::TypeCommandV;
use crate::command::WaitCommand;
use crate::command::WaitCommandV;
use crate::command::WaitMode;
use crate::duration::duration_for_unit;
use crate::duration::spec_duration_value;
use crate::duration::Duration;
use crate::lexer::spec_tokens;
use crate::lexer::lemma_spec_tokens_next;
use crate::lexer::lemma_next_token_progress;
use crate::lexer::Lexer;
use crate::number::parse_decimal;
use crate::number::parse_u32;
use crate::number::spec_parse_decimal;
use crate::number::spec_parse_u32;
use crate::number::Decimal;
use crate::paths::ends_with_slash;
use crate::paths::path_extension;
use crate::paths::spec_ends_with_slash;
use crate::paths::spec_extension;
use crate::pattern::regex_is_valid;
use crate::pattern::regex_valid;
use crate::token::eof_token;
use crate::token::spec_is_modifier;
use crate::token::spec_is_setting;
use crate::token::spec_lookup;
use crate::token::SpecToken;
use crate::token::Token;
use crate::token::TokenType;

verus! {

/// The token at position `i` of the stream; past its end, the
/// end-of-input token.
pub open spec fn tok(s: Seq<SpecToken>, i: int) -> SpecToken {
    if 0 <= i < s.len() {
        s[i]
    } else {
        eof_token()
    }
}

/// An optional rate: a non-zero time stands for itself, a zero time for
/// absence.
pub open spec fn spec_rate_opt(ms: int) -> Option<int> {
    if ms != 0 {
        Option::Some(ms)
    } else {
        Option::None
    }
}

/// Reading a time value at the position after `i`: the number token is
/// consumed, then a time-unit token if one follows, scaling the value;
/// without a unit the number is read as whole seconds.  A missing or
/// malformed number is a recorded error and a zero time, never an abort.
pub open spec fn spec_parse_time(s: Seq<SpecToken>, i: int) -> (int, int, Seq<SpecError>) {
    if tok(s, i + 1).kind == TokenType::Number {
        let numtok = tok(s, i + 1);
        match spec_parse_decimal(numtok.literal) {
            Option::Some(d) => {
                let u = tok(s, i + 2).kind;
                if u == TokenType::Milliseconds || u == TokenType::Seconds || u
                    == TokenType::Minutes {
                    (spec_duration_value(d, u), i + 2, Seq::<SpecError>::empty())
                } else {
                    (spec_duration_value(d, TokenType::Seconds), i + 1, Seq::<SpecError>::empty())
                }
            },
            Option::None => (
                0,
                i + 1,
                seq![
                    SpecError { token: numtok, message: "Invalid number: "@ + numtok.literal },
                ],
            ),
        }
    } else {
        (
            0,
            i,
            seq![
                SpecError {
                    token: tok(s, i),
                    message: "Expected time after "@ + tok(s, i).literal,
                },
            ],
        )
    }
}

/// An optional `@<time>` rate: nothing is consumed unless `@` follows.
pub open spec fn spec_parse_speed(s: Seq<SpecToken>, i: int) -> (int, int, Seq<SpecError>) {
    if tok(s, i + 1).kind == TokenType::At {
        spec_parse_time(s, i + 1)
    } else {
        (0, i, Seq::<SpecError>::empty())
    }
}

/// An optional trailing repeat count; anything but a whole number in
/// range counts once.
pub open spec fn spec_parse_repeat(s: Seq<SpecToken>, i: int) -> (int, int) {
    if tok(s, i + 1).kind == TokenType::Number {
        match spec_parse_u32(tok(s, i + 1).literal) {
            Option::Some(v) => (v as int, i + 1),
            Option::None => (1, i + 1),
        }
    } else {
        (1, i)
    }
}

/// A key press: optional rate, optional repeat count.
pub open spec fn spec_parse_keypress(s: Seq<SpecToken>, i: int, key: TokenType) -> (
    KeyCommandV,
    int,
    Seq<SpecError>,
) {
    let (spd, j1, errs) = spec_parse_speed(s, i);
    let (cnt, j2) = spec_parse_repeat(s, j1);
    (KeyCommandV { key, rate: spec_rate_opt(spd), repeat_count: cnt }, j2, errs)
}

/// The end of a run of consecutive `String` tokens starting at `i`.
pub open spec fn string_run_end(s: Seq<SpecToken>, i: int) -> int
    decreases s.len() - i,
{
    if 0 <= i < s.len() && s[i].kind == TokenType::String {
        string_run_end(s, i + 1)
    } else {
        i
    }
}

pub proof fn lemma_string_run_end_bounds(s: Seq<SpecToken>, i: int)
    requires
        0 <= i,
    ensures
        i <= string_run_end(s, i),
        i <= s.len() ==> string_run_end(s, i) <= s.len(),
    decreases s.len() - i,
{
    if 0 <= i < s.len() && s[i].kind == TokenType::String {
        lemma_string_run_end_bounds(s, i + 1);
    }
}

/// The literals of the tokens `s[i..e]`, joined with single spaces.
pub open spec fn join_literals(s: Seq<SpecToken>, i: int, e: int) -> Seq<char>
    decreases e - i,
{
    if i >= e {
        Seq::<char>::empty()
    } else if i + 1 == e {
        tok(s, i).literal
    } else {
        tok(s, i).literal + " "@ + join_literals(s, i + 1, e)
    }
}

pub proof fn lemma_join_snoc(s: Seq<SpecToken>, a: int, b: int)
    requires
        a <= b,
    ensures
        join_literals(s, a, b + 1) == if a == b {
            tok(s, b).literal
        } else {
            join_literals(s, a, b) + " "@ + tok(s, b).literal
        },
    decreases b - a,
{
    if a < b {
        lemma_join_snoc(s, a + 1, b);
        if a + 1 < b {
            assert(tok(s, a).literal + " "@ + (join_literals(s, a + 1, b) + " "@ + tok(
                s,
                b,
            ).literal) =~= (tok(s, a).literal + " "@ + join_literals(s, a + 1, b)) + " "@ + tok(
                s,
                b,
            ).literal);
        }
    }
}

/// A `Type` command: optional rate, then one or more strings, joined
/// with single spaces.
pub open spec fn spec_parse_type(s: Seq<SpecToken>, i: int) -> (
    Result<TypeCommandV, Seq<char>>,
    int,
    Seq<SpecError>,
) {
    let (spd, j1, errs) = spec_parse_speed(s, i);
    if tok(s, j1 + 1).kind != TokenType::String {
        (Result::Err(tok(s, j1).literal + " expects string"@), j1, errs)
    } else {
        let e = string_run_end(s, j1 + 1);
        (
            Result::Ok(
                TypeCommandV { rate: spec_rate_opt(spd), text: join_literals(s, j1 + 1, e) },
            ),
            e - 1,
            errs,
        )
    }
}

/// A `Copy` command: one or more strings, joined with single spaces.
pub open spec fn spec_parse_copy(s: Seq<SpecToken>, i: int) -> (Result<CopyCommandV, Seq<char>>, int) {
    if tok(s, i + 1).kind != TokenType::String {
        (Result::Err(tok(s, i).literal + " expects string"@), i)
    } else {
        let e = string_run_end(s, i + 1);
        (Result::Ok(CopyCommandV { text: join_literals(s, i + 1, e) }), e - 1)
    }
}

/// A `Require` command: one string naming a program.
pub open spec fn spec_parse_require(s: Seq<SpecToken>, i: int) -> (
    Result<RequireCommandV, Seq<char>>,
    int,
) {
    if tok(s, i + 1).kind != TokenType::String {
        (Result::Err(tok(s, i).literal + " expects one string"@), i)
    } else {
        (Result::Ok(RequireCommandV { program: tok(s, i + 1).literal }), i + 1)
    }
}

/// An `Env` command: a variable-name token, then a string value.
pub open spec fn spec_parse_env(s: Seq<SpecToken>, i: int) -> (Result<EnvCommandV, Seq<char>>, int) {
    if tok(s, i + 2).kind != TokenType::String {
        (Result::Err(tok(s, i + 1).literal + " expects string"@), i + 1)
    } else {
        (
            Result::Ok(
                EnvCommandV { variable: tok(s, i + 1).literal, value: tok(s, i + 2).literal },
            ),
            i + 2,
        )
    }
}

/// An `Output` command: one string path; the format is the path's
/// extension, or `.png` for a folder given with a trailing slash.
pub open spec fn spec_parse_output(s: Seq<SpecToken>, i: int) -> (
    Result<OutputCommandV, Seq<char>>,
    int,
) {
    if tok(s, i + 1).kind != TokenType::String {
        (Result::Err("Expected file path after output"@), i)
    } else {
        let lit = tok(s, i + 1).literal;
        match spec_extension(lit) {
            Option::Some(e) => (
                Result::Ok(OutputCommandV { path: lit, format: "."@ + e }),
                i + 1,
            ),
            Option::None => {
                if !spec_ends_with_slash(lit) {
                    (Result::Err("Expected folder with trailing slash"@), i)
                } else {
                    (Result::Ok(OutputCommandV { path: lit, format: ".png"@ }), i + 1)
                }
            },
        }
    }
}

/// A `Screenshot` command: one string path ending in `.png`.  A rejected
/// path still consumes one token.
pub open spec fn spec_parse_screenshot(s: Seq<SpecToken>, i: int) -> (
    Result<ScreenshotCommandV, Seq<char>>,
    int,
) {
    if tok(s, i + 1).kind != TokenType::String {
        (Result::Err("Expected path after Screenshot"@), i + 1)
    } else if spec_extension(tok(s, i + 1).literal) != Option::Some("png"@) {
        (Result::Err("Expected file with .png extension"@), i + 1)
    } else {
        (Result::Ok(ScreenshotCommandV { path: tok(s, i + 1).literal }), i + 1)
    }
}

/// A `Sleep` command: an optional time value.
pub open spec fn spec_parse_sleep(s: Seq<SpecToken>, i: int) -> (SleepCommandV, int, Seq<SpecError>) {
    if tok(s, i + 1).kind == TokenType::Number {
        let (ms, j, errs) = spec_parse_time(s, i);
        (SleepCommandV { duration: spec_rate_opt(ms) }, j, errs)
    } else {
        (SleepCommandV { duration: Option::None }, i, Seq::<SpecError>::empty())
    }
}

/// Whether a token may end a `Ctrl` combination: a named special key,
/// one of the permitted operator keys, or a single-character string.
pub open spec fn spec_ctrl_terminal(pk: SpecToken) -> bool {
    pk.kind == TokenType::Enter || pk.kind == TokenType::Space || pk.kind == TokenType::Backspace
        || pk.kind == TokenType::Delete || pk.kind == TokenType::Insert || pk.kind
        == TokenType::Tab || pk.kind == TokenType::Escape || pk.kind == TokenType::Minus
        || pk.kind == TokenType::At || pk.kind == TokenType::LeftBracket || pk.kind
        == TokenType::RightBracket || pk.kind == TokenType::Caret || pk.kind
        == TokenType::Backslash || (pk.kind == TokenType::String && pk.literal.len() == 1)
}

/// The `+<key>` groups of a `Ctrl` combination: modifiers may only come
/// before other keys, and at least one key is required.
pub open spec fn spec_ctrl_keys(
    s: Seq<SpecToken>,
    j: int,
    in_chain: bool,
    acc: Seq<Seq<char>>,
) -> (Result<Seq<Seq<char>>, Seq<char>>, int)
    decreases s.len() - j,
    via spec_ctrl_keys_dec
{
    if tok(s, j + 1).kind == TokenType::Plus {
        let pk = tok(s, j + 2);
        if spec_is_modifier(spec_lookup(pk.literal)) {
            if !in_chain {
                (Result::Err("Modifiers must come before other keys"@), j + 1)
            } else {
                spec_ctrl_keys(s, j + 2, true, acc.push(pk.literal))
            }
        } else if spec_ctrl_terminal(pk) {
            spec_ctrl_keys(s, j + 2, false, acc.push(pk.literal))
        } else {
            (Result::Err("Invalid Ctrl key: "@ + pk.literal), j + 1)
        }
    } else {
        if acc.len() == 0 {
            (Result::Err("Expected at least one key after Ctrl"@), j)
        } else {
            (Result::Ok(acc), j)
        }
    }
}

#[via_fn]
proof fn spec_ctrl_keys_dec(s: Seq<SpecToken>, j: int, in_chain: bool, acc: Seq<Seq<char>>) {
    if tok(s, j + 1).kind == TokenType::Plus {
        assert(0 <= j + 1 < s.len());
    }
}

pub proof fn lemma_ctrl_keys_bounds(s: Seq<SpecToken>, j: int, in_chain: bool, acc: Seq<Seq<char>>)
    requires
        0 <= j + 1,
    ensures
        j <= spec_ctrl_keys(s, j, in_chain, acc).1,
    decreases s.len() - j,
{
    if tok(s, j + 1).kind == TokenType::Plus {
        assert(0 <= j + 1 < s.len());
        let pk = tok(s, j + 2);
        if spec_is_modifier(spec_lookup(pk.literal)) {
            if in_chain {
                lemma_ctrl_keys_bounds(s, j + 2, true, acc.push(pk.literal));
            }
        } else if spec_ctrl_terminal(pk) {
            lemma_ctrl_keys_bounds(s, j + 2, false, acc.push(pk.literal));
        }
    }
}

/// A `Ctrl` command: optional rate, then the `+<key>` groups.
pub open spec fn spec_parse_ctrl(s: Seq<SpecToken>, i: int) -> (
    Result<CtrlCommandV, Seq<char>>,
    int,
    Seq<SpecError>,
) {
    let (spd, j0, errs) = spec_parse_speed(s, i);
    let keys = spec_ctrl_keys(s, j0, true, Seq::<Seq<char>>::empty());
    match keys.0 {
        Result::Ok(ks) => (
            Result::Ok(CtrlCommandV { keys: ks, rate: spec_rate_opt(spd) }),
            keys.1,
            errs,
        ),
        Result::Err(m) => (Result::Err(m), keys.1, errs),
    }
}

/// An `Alt` or `Shift` command: optional rate, then exactly one `+<key>`
/// whose key is a string or one of a few named keys.
pub open spec fn spec_parse_altshift(s: Seq<SpecToken>, i: int, name: Seq<char>) -> (
    Result<CtrlCommandV, Seq<char>>,
    int,
    Seq<SpecError>,
) {
    let (spd, j0, errs) = spec_parse_speed(s, i);
    if tok(s, j0 + 1).kind != TokenType::Plus {
        (
            Result::Err("Expected '+' after "@ + name + ", got "@ + tok(s, j0 + 1).literal),
            j0,
            errs,
        )
    } else {
        let pk = tok(s, j0 + 2);
        if pk.kind == TokenType::String || pk.kind == TokenType::Enter || pk.kind
            == TokenType::LeftBracket || pk.kind == TokenType::RightBracket || pk.kind
            == TokenType::Tab {
            (
                Result::Ok(CtrlCommandV { keys: seq![pk.literal], rate: spec_rate_opt(spd) }),
                j0 + 2,
                errs,
            )
        } else {
            (Result::Err("Invalid "@ + name + " key: "@ + pk.literal), j0 + 1, errs)
        }
    }
}

/// The rest of a `Wait` command after its mode: optional timeout, then
/// an optional pattern that must compile as a regular expression.
pub open spec fn spec_parse_wait_rest(s: Seq<SpecToken>, j: int, mode: WaitMode) -> (
    Result<WaitCommandV, Seq<char>>,
    int,
    Seq<SpecError>,
) {
    let (spd, j2, errs) = spec_parse_speed(s, j);
    let timeout = spec_rate_opt(spd);
    if tok(s, j2 + 1).kind == TokenType::Regex {
        let lit = tok(s, j2 + 1).literal;
        if !regex_valid(lit) {
            (
                Result::Err("Invalid regular expression '"@ + lit + "': invalid regex"@),
                j2 + 1,
                errs,
            )
        } else {
            (
                Result::Ok(WaitCommandV { mode, pattern: Option::Some(lit), timeout }),
                j2 + 1,
                errs,
            )
        }
    } else {
        (Result::Ok(WaitCommandV { mode, pattern: Option::None, timeout }), j2, errs)
    }
}

/// A `Wait` command: optional `+Line`/`+Screen` mode, defaulting to the
/// line mode, then its timeout and pattern.
pub open spec fn spec_parse_wait(s: Seq<SpecToken>, i: int) -> (
    Result<WaitCommandV, Seq<char>>,
    int,
    Seq<SpecError>,
) {
    if tok(s, i + 1).kind == TokenType::Plus {
        let pk = tok(s, i + 2);
        if pk.kind != TokenType::String || (pk.literal != "Line"@ && pk.literal != "Screen"@) {
            (Result::Err("Wait+ expects Line or Screen"@), i + 1, Seq::<SpecError>::empty())
        } else {
            let mode = if pk.literal == "Line"@ {
                WaitMode::Line
            } else {
                WaitMode::Screen
            };
            spec_parse_wait_rest(s, i + 2, mode)
        }
    } else {
        spec_parse_wait_rest(s, i, WaitMode::Line)
    }
}

/// A whole-number setting value, read at the position after the
/// setting's name.
pub open spec fn spec_set_num(s: Seq<SpecToken>, p: int) -> (Result<u32, Seq<char>>, int) {
    let lit = tok(s, p + 1).literal;
    match spec_parse_u32(lit) {
        Option::Some(v) => (Result::Ok(v), p + 1),
        Option::None => (Result::Err("Invalid number: "@ + lit), p),
    }
}

/// A decimal setting value, read at the position after the setting's
/// name.
pub open spec fn spec_set_dec(s: Seq<SpecToken>, p: int) -> (Result<Decimal, Seq<char>>, int) {
    let lit = tok(s, p + 1).literal;
    match spec_parse_decimal(lit) {
        Option::Some(d) => (Result::Ok(d), p + 1),
        Option::None => (Result::Err("Invalid number: "@ + lit), p),
    }
}

/// A duration setting value: a number, then an optional unit; minutes
/// are only a unit where the setting allows them.
pub open spec fn spec_set_duration(s: Seq<SpecToken>, p: int, name: Seq<char>, minutes: bool) -> (
    Result<int, Seq<char>>,
    int,
) {
    let pk = tok(s, p + 1);
    if pk.kind != TokenType::Number {
        (Result::Err("Set "@ + name + " expects a number, got "@ + pk.literal), p)
    } else {
        match spec_parse_decimal(pk.literal) {
            Option::None => (Result::Err("Invalid number: "@ + pk.literal), p),
            Option::Some(d) => {
                let u = tok(s, p + 2).kind;
                if u == TokenType::Milliseconds || u == TokenType::Seconds || (minutes && u
                    == TokenType::Minutes) {
                    (Result::Ok(spec_duration_value(d, u)), p + 2)
                } else {
                    (Result::Ok(spec_duration_value(d, TokenType::Seconds)), p + 1)
                }
            },
        }
    }
}

/// A `Set` command: a recognized setting keyword, then a value parsed by
/// that setting's own grammar.
pub open spec fn spec_parse_set(s: Seq<SpecToken>, i: int) -> (Result<SettingV, Seq<char>>, int) {
    let st = tok(s, i + 1).kind;
    if !spec_is_setting(st) {
        (Result::Err("Unknown setting: "@ + tok(s, i + 1).literal), i)
    } else if st == TokenType::Shell {
        let pk = tok(s, i + 2);
        if pk.kind == TokenType::String || pk.kind == TokenType::Json {
            (Result::Ok(SettingV::Shell(pk.literal)), i + 2)
        } else {
            (Result::Err("Set Shell expects string or JSON, got "@ + pk.literal), i + 1)
        }
    } else if st == TokenType::FontSize {
        let (r, j) = spec_set_num(s, i + 1);
        (
            match r {
                Result::Ok(v) => Result::Ok(SettingV::FontSize(v)),
                Result::Err(m) => Result::Err(m),
            },
            j,
        )
    } else if st == TokenType::FontFamily {
        (Result::Ok(SettingV::FontFamily(tok(s, i + 2).literal)), i + 2)
    } else if st == TokenType::Width {
        let (r, j) = spec_set_num(s, i + 1);
        (
            match r {
                Result::Ok(v) => Result::Ok(SettingV::Width(v)),
                Result::Err(m) => Result::Err(m),
            },
            j,
        )
    } else if st == TokenType::Height {
        let (r, j) = spec_set_num(s, i + 1);
        (
            match r {
                Result::Ok(v) => Result::Ok(SettingV::Height(v)),
                Result::Err(m) => Result::Err(m),
            },
            j,
        )
    } else if st == TokenType::LetterSpacing {
        let (r, j) = spec_set_dec(s, i + 1);
        (
            match r {
                Result::Ok(d) => Result::Ok(SettingV::LetterSpacing(d)),
                Result::Err(m) => Result::Err(m),
            },
            j,
        )
    } else if st == TokenType::LineHeight {
        let (r, j) = spec_set_dec(s, i + 1);
        (
            match r {
                Result::Ok(d) => Result::Ok(SettingV::LineHeight(d)),
                Result::Err(m) => Result::Err(m),
            },
            j,
        )
    } else if st == TokenType::LoopOffset {
        let lit = tok(s, i + 2).literal;
        let j = if tok(s, i + 3).kind == TokenType::Percent {
            i + 3
        } else {
            i + 2
        };
        let lit2 = if lit.len() > 0 && lit.last() == '%' {
            lit.drop_last()
        } else {
            lit
        };
        (
            match spec_parse_decimal(lit2) {
                Option::Some(d) => Result::Ok(SettingV::LoopOffset(d)),
                Option::None => Result::Err("Invalid number: "@ + lit2),
            },
            j,
        )
    } else if st == TokenType::Theme {
        (Result::Ok(SettingV::Theme(tok(s, i + 2).literal)), i + 2)
    } else if st == TokenType::Padding {
        let (r, j) = spec_set_num(s, i + 1);
        (
            match r {
                Result::Ok(v) => Result::Ok(SettingV::Padding(v)),
                Result::Err(m) => Result::Err(m),
            },
            j,
        )
    } else if st == TokenType::Framerate {
        let (r, j) = spec_set_num(s, i + 1);
        (
            match r {
                Result::Ok(v) => Result::Ok(SettingV::Framerate(v)),
                Result::Err(m) => Result::Err(m),
            },
            j,
        )
    } else if st == TokenType::PlaybackSpeed {
        let (r, j) = spec_set_dec(s, i + 1);
        (
            match r {
                Result::Ok(d) => Result::Ok(SettingV::PlaybackSpeed(d)),
                Result::Err(m) => Result::Err(m),
            },
            j,
        )
    } else if st == TokenType::MarginFill {
        (Result::Ok(SettingV::MarginFill(tok(s, i + 2).literal)), i + 2)
    } else if st == TokenType::Margin {
        let (r, j) = spec_set_num(s, i + 1);
        (
            match r {
                Result::Ok(v) => Result::Ok(SettingV::Margin(v)),
                Result::Err(m) => Result::Err(m),
            },
            j,
        )
    } else if st == TokenType::BorderRadius {
        let (r, j) = spec_set_num(s, i + 1);
        (
            match r {
                Result::Ok(v) => Result::Ok(SettingV::BorderRadius(v)),
                Result::Err(m) => Result::Err(m),
            },
            j,
        )
    } else if st == TokenType::WindowBar {
        (Result::Ok(SettingV::WindowBar(tok(s, i + 2).literal)), i + 2)
    } else if st == TokenType::WindowBarSize {
        let (r, j) = spec_set_num(s, i + 1);
        (
            match r {
                Result::Ok(v) => Result::Ok(SettingV::WindowBarSize(v)),
                Result::Err(m) => Result::Err(m),
            },
            j,
        )
    } else if st == TokenType::TypingSpeed {
        let (r, j) = spec_set_duration(s, i + 1, "TypingSpeed"@, false);
        (
            match r {
                Result::Ok(ms) => Result::Ok(SettingV::TypingSpeed(ms)),
                Result::Err(m) => Result::Err(m),
            },
            j,
        )
    } else if st == TokenType::WaitTimeout {
        let (r, j) = spec_set_duration(s, i + 1, "WaitTimeout"@, true);
        (
            match r {
                Result::Ok(ms) => Result::Ok(SettingV::WaitTimeout(ms)),
                Result::Err(m) => Result::Err(m),
            },
            j,
        )
    } else if st == TokenType::WaitPattern {
        let lit = tok(s, i + 2).literal;
        if !regex_valid(lit) {
            (Result::Err("Invalid regexp pattern: "@ + lit), i + 1)
        } else {
            (Result::Ok(SettingV::WaitPattern(lit)), i + 2)
        }
    } else {
        // CursorBlink is the one setting left
        let lit = tok(s, i + 2).literal;
        if lit == "true"@ {
            (Result::Ok(SettingV::CursorBlink(true)), i + 2)
        } else if lit == "false"@ {
            (Result::Ok(SettingV::CursorBlink(false)), i + 2)
        } else {
            (Result::Err("Set CursorBlink expects true/false, got "@ + lit), i + 1)
        }
    }
}

/// The kinds that dispatch to the plain key-press grammar.
pub open spec fn spec_is_keypress(k: TokenType) -> bool {
    k == TokenType::Space || k == TokenType::Backspace || k == TokenType::Delete || k
        == TokenType::Insert || k == TokenType::Enter || k == TokenType::Escape || k
        == TokenType::Tab || k == TokenType::Down || k == TokenType::Left || k
        == TokenType::Right || k == TokenType::Up || k == TokenType::PageUp || k
        == TokenType::PageDown
}

/// The kinds the top-level dispatcher recognizes as commands; any other
/// current token is reported as an invalid command.
pub open spec fn spec_dispatched(k: TokenType) -> bool {
    spec_is_keypress(k) || k == TokenType::SetCmd || k == TokenType::Output || k
        == TokenType::Sleep || k == TokenType::Type || k == TokenType::Ctrl || k == TokenType::Alt
        || k == TokenType::Shift || k == TokenType::Hide || k == TokenType::Require || k
        == TokenType::Show || k == TokenType::Wait || k == TokenType::Screenshot || k
        == TokenType::Copy || k == TokenType::Paste || k == TokenType::Env
}

/// One command at position `i`: the dispatch on the current token's
/// kind, giving the command or the error message, the position of the
/// last token the sub-parser consumed, and any side errors it recorded.
pub open spec fn spec_command(s: Seq<SpecToken>, i: int) -> (
    Result<CommandsV, Seq<char>>,
    int,
    Seq<SpecError>,
) {
    let k = tok(s, i).kind;
    if spec_is_keypress(k) {
        let (c, j, errs) = spec_parse_keypress(s, i, k);
        (Result::Ok(CommandsV::Key(c)), j, errs)
    } else if k == TokenType::SetCmd {
        let (r, j) = spec_parse_set(s, i);
        (
            match r {
                Result::Ok(st) => Result::Ok(CommandsV::SetCmd(SetCommandV { setting: st })),
                Result::Err(m) => Result::Err(m),
            },
            j,
            Seq::<SpecError>::empty(),
        )
    } else if k == TokenType::Output {
        let (r, j) = spec_parse_output(s, i);
        (
            match r {
                Result::Ok(c) => Result::Ok(CommandsV::Output(c)),
                Result::Err(m) => Result::Err(m),
            },
            j,
            Seq::<SpecError>::empty(),
        )
    } else if k == TokenType::Sleep {
        let (c, j, errs) = spec_parse_sleep(s, i);
        (Result::Ok(CommandsV::Sleep(c)), j, errs)
    } else if k == TokenType::Type {
        let (r, j, errs) = spec_parse_type(s, i);
        (
            match r {
                Result::Ok(c) => Result::Ok(CommandsV::Type(c)),
                Result::Err(m) => Result::Err(m),
            },
            j,
            errs,
        )
    } else if k == TokenType::Ctrl {
        let (r, j, errs) = spec_parse_ctrl(s, i);
        (
            match r {
                Result::Ok(c) => Result::Ok(CommandsV::Ctrl(c)),
                Result::Err(m) => Result::Err(m),
            },
            j,
            errs,
        )
    } else if k == TokenType::Alt {
        let (r, j, errs) = spec_parse_altshift(s, i, "Alt"@);
        (
            match r {
                Result::Ok(c) => Result::Ok(CommandsV::Alt(c)),
                Result::Err(m) => Result::Err(m),
            },
            j,
            errs,
        )
    } else if k == TokenType::Shift {
        let (r, j, errs) = spec_parse_altshift(s, i, "Shift"@);
        (
            match r {
                Result::Ok(c) => Result::Ok(CommandsV::Shift(c)),
                Result::Err(m) => Result::Err(m),
            },
            j,
            errs,
        )
    } else if k == TokenType::Hide {
        (Result::Ok(CommandsV::Hide), i, Seq::<SpecError>::empty())
    } else if k == TokenType::Require {
        let (r, j) = spec_parse_require(s, i);
        (
            match r {
                Result::Ok(c) => Result::Ok(CommandsV::Require(c)),
                Result::Err(m) => Result::Err(m),
            },
            j,
            Seq::<SpecError>::empty(),
        )
    } else if k == TokenType::Show {
        (Result::Ok(CommandsV::Show), i, Seq::<SpecError>::empty())
    } else if k == TokenType::Wait {
        let (r, j, errs) = spec_parse_wait(s, i);
        (
            match r {
                Result::Ok(c) => Result::Ok(CommandsV::Wait(c)),
                Result::Err(m) => Result::Err(m),
            },
            j,
            errs,
        )
    } else if k == TokenType::Screenshot {
        let (r, j) = spec_parse_screenshot(s, i);
        (
            match r {
                Result::Ok(c) => Result::Ok(CommandsV::Screenshot(c)),
                Result::Err(m) => Result::Err(m),
            },
            j,
            Seq::<SpecError>::empty(),
        )
    } else if k == TokenType::Copy {
        let (r, j) = spec_parse_copy(s, i);
        (
            match r {
                Result::Ok(c) => Result::Ok(CommandsV::Copy(c)),
                Result::Err(m) => Result::Err(m),
            },
            j,
            Seq::<SpecError>::empty(),
        )
    } else if k == TokenType::Paste {
        (Result::Ok(CommandsV::Paste), i, Seq::<SpecError>::empty())
    } else if k == TokenType::Env {
        let (r, j) = spec_parse_env(s, i);
        (
            match r {
                Result::Ok(c) => Result::Ok(CommandsV::Env(c)),
                Result::Err(m) => Result::Err(m),
            },
            j,
            Seq::<SpecError>::empty(),
        )
    } else {
        (Result::Err("Invalid command: "@ + tok(s, i).literal), i, Seq::<SpecError>::empty())
    }
}

/// A sub-parser never moves backwards.
pub proof fn lemma_spec_command_bounds(s: Seq<SpecToken>, i: int)
    requires
        0 <= i,
    ensures
        i <= spec_command(s, i).1,
{
    let k = tok(s, i).kind;
    let (spd0, j0, e0) = spec_parse_speed(s, i);
    assert(i <= j0);
    if k == TokenType::Ctrl {
        lemma_ctrl_keys_bounds(s, j0, true, Seq::<Seq<char>>::empty());
    }
    if k == TokenType::Type {
        if tok(s, j0 + 1).kind == TokenType::String {
            lemma_string_run_end_bounds(s, j0 + 1);
        }
    }
    if k == TokenType::Copy {
        if tok(s, i + 1).kind == TokenType::String {
            lemma_string_run_end_bounds(s, i + 1);
        }
    }
}

/// The whole parse of a token stream from position `i`: the commands in
/// source order, and the errors in the order they were noticed.  After a
/// failed command the loop advances by one token and goes on.
pub open spec fn spec_parse(s: Seq<SpecToken>, i: int) -> (Seq<CommandsV>, Seq<SpecError>)
    decreases s.len() - i,
    via spec_parse_dec
{
    if tok(s, i).kind == TokenType::Eof {
        (Seq::<CommandsV>::empty(), Seq::<SpecError>::empty())
    } else if tok(s, i).kind == TokenType::Comment {
        spec_parse(s, i + 1)
    } else {
        let (res, j, errs) = spec_command(s, i);
        let jn = if j + 1 <= s.len() {
            j + 1
        } else {
            s.len() as int
        };
        let (cs, es) = spec_parse(s, jn);
        match res {
            Result::Ok(c) => (seq![c] + cs, errs + es),
            Result::Err(m) => (
                cs,
                errs + seq![SpecError { token: tok(s, j), message: m }] + es,
            ),
        }
    }
}

#[via_fn]
proof fn spec_parse_dec(s: Seq<SpecToken>, i: int) {
    if tok(s, i).kind != TokenType::Eof {
        assert(0 <= i < s.len());
        if tok(s, i).kind != TokenType::Comment {
            lemma_spec_command_bounds(s, i);
        }
    }
}

/// The tail of the stream from position `k` on.
pub open spec fn suffix_from(s: Seq<SpecToken>, k: int) -> Seq<SpecToken> {
    if k < 0 {
        s
    } else if k <= s.len() {
        s.skip(k)
    } else {
        Seq::<SpecToken>::empty()
    }
}

/// The parser: the lexer it pulls from, the two-token lookahead window,
/// and the errors recorded so far.
pub struct Parser {
    lexer: Lexer,
    errors: Vec<ParseError>,
    current_token: Token,
    peek_token: Token,
    stream: Ghost<Seq<SpecToken>>,
    idx: Ghost<int>,
}

impl Parser {
    /// The token stream of the source being parsed.
    pub closed spec fn stream(&self) -> Seq<SpecToken> {
        self.stream@
    }

    /// The position of the current token within the stream.
    pub closed spec fn idx(&self) -> int {
        self.idx@
    }

    /// The errors recorded so far.
    pub closed spec fn errors_view(&self) -> Seq<SpecError> {
        self.errors.deep_view()
    }

    /// The lookahead window sits at `idx` in the stream, and the lexer
    /// holds exactly the rest of the stream.
    pub closed spec fn wf(&self) -> bool {
        &&& self.lexer@.wf()
        &&& 0 <= self.idx@
        &&& self.current_token@ == tok(self.stream@, self.idx@)
        &&& self.peek_token@ == tok(self.stream@, self.idx@ + 1)
        &&& spec_tokens(self.lexer@) == suffix_from(self.stream@, self.idx@ + 2)
    }

    /// Prime the lookahead window with the first two tokens.
    pub fn new(lexer: Lexer) -> (r: Parser)
        requires
            lexer.wf(),
        ensures
            r.wf(),
            r.stream() == spec_tokens(lexer@),
            r.idx() == 0,
            r.errors_view() == Seq::<SpecError>::empty(),
    {
        let ghost s0 = spec_tokens(lexer@);
        let mut lx = lexer;
        proof {
            lemma_spec_tokens_next(lx@);
            lemma_next_token_progress(lx@);
        }
        let t1 = lx.next_token();
        proof {
            lemma_spec_tokens_next(lx@);
            lemma_next_token_progress(lx@);
        }
        let t2 = lx.next_token();
        let p = Parser {
            lexer: lx,
            errors: Vec::new(),
            current_token: t1,
            peek_token: t2,
            stream: Ghost(s0),
            idx: Ghost(0int),
        };
        proof {
            if s0.len() >= 2 {
                assert(s0.drop_first().drop_first() =~= s0.skip(2));
            }
            assert(p.errors.deep_view() =~= Seq::<SpecError>::empty());
        }
        p
    }

    /// Shift the window: the peek token becomes current and a fresh
    /// token is pulled from the lexer.
    fn next_token(&mut self)
        requires
            old(self).wf(),
        ensures
            final(self).wf(),
            final(self).stream() == old(self).stream(),
            final(self).idx() == old(self).idx() + 1,
            final(self).errors_view() == old(self).errors_view(),
    {
        proof {
            lemma_spec_tokens_next(self.lexer@);
            lemma_next_token_progress(self.lexer@);
        }
        core::mem::swap(&mut self.current_token, &mut self.peek_token);
        self.peek_token = self.lexer.next_token();
        proof {
            let s = self.stream@;
            let i0 = old(self).idx@;
            if i0 + 2 < s.len() {
                assert(suffix_from(s, i0 + 2) == s.skip(i0 + 2));
                assert(s.skip(i0 + 2)[0] == s[i0 + 2]);
                assert(s.skip(i0 + 2).drop_first() =~= s.skip(i0 + 3));
            } else if i0 + 2 == s.len() {
                assert(suffix_from(s, i0 + 2) =~= Seq::<SpecToken>::empty());
            }
        }
        self.idx = Ghost(self.idx@ + 1);
    }

    /// Record one parse error.
    fn record_error(&mut self, token: Token, message: String)
        requires
            old(self).wf(),
        ensures
            final(self).wf(),
            final(self).stream() == old(self).stream(),
            final(self).idx() == old(self).idx(),
            final(self).errors_view() == old(self).errors_view().push(
                SpecError { token: token@, message: message@ },
            ),
    {
        let ghost e = SpecError { token: token@, message: message@ };
        self.errors.push(ParseError { token, message });
        proof {
            assert(self.errors.deep_view() =~= old(self).errors_view().push(e));
        }
    }

    /// Read a time value: a number, then an optional unit, defaulting to
    /// whole seconds.  A missing or malformed number records an error
    /// and yields the zero duration.
    fn parse_time(&mut self) -> (d: Duration)
        requires
            old(self).wf(),
        ensures
            final(self).wf(),
            final(self).stream() == old(self).stream(),
            ({
                let (ms, j, errs) = spec_parse_time(old(self).stream(), old(self).idx());
                d@ == ms && final(self).idx() == j && final(self).errors_view() == old(
                    self,
                ).errors_view() + errs
            }),
    {
        if self.peek_token.token_type == TokenType::Number {
            self.next_token();
            match parse_decimal(self.current_token.literal.as_str()) {
                Some(dec) => {
                    let u = self.peek_token.token_type;
                    if u == TokenType::Milliseconds || u == TokenType::Seconds || u
                        == TokenType::Minutes {
                        let d = duration_for_unit(&dec, &u);
                        self.next_token();
                        proof {
                            assert(self.errors_view() =~= old(self).errors_view()
                                + Seq::<SpecError>::empty());
                        }
                        d
                    } else {
                        let d = duration_for_unit(&dec, &TokenType::Seconds);
                        proof {
                            assert(self.errors_view() =~= old(self).errors_view()
                                + Seq::<SpecError>::empty());
                        }
                        d
                    }
                },
                None => {
                    let mut m = String::from_str("Invalid number: ");
                    m.append(self.current_token.literal.as_str());
                    let tk = self.current_token.duplicate();
                    self.record_error(tk, m);
                    proof {
                        let (ms, j, errs) = spec_parse_time(old(self).stream(), old(self).idx());
                        assert(self.errors_view() =~= old(self).errors_view() + errs);
                    }
                    Duration::default()
                },
            }
        } else {
            let mut m = String::from_str("Expected time after ");
            m.append(self.current_token.literal.as_str());
            let tk = self.current_token.duplicate();
            self.record_error(tk, m);
            proof {
                let (ms, j, errs) = spec_parse_time(old(self).stream(), old(self).idx());
                assert(self.errors_view() =~= old(self).errors_view() + errs);
            }
            Duration::default()
        }
    }

    /// Read an `@<time>` rate if one follows; the zero duration stands
    /// for its absence.
    fn parse_speed(&mut self) -> (d: Duration)
        requires
            old(self).wf(),
        ensures
            final(self).wf(),
            final(self).stream() == old(self).stream(),
            ({
                let (ms, j, errs) = spec_parse_speed(old(self).stream(), old(self).idx());
                d@ == ms && final(self).idx() == j && final(self).errors_view() == old(
                    self,
                ).errors_view() + errs
            }),
    {
        if self.peek_token.token_type == TokenType::At {
            self.next_token();
            self.parse_time()
        } else {
            proof {
                assert(self.errors_view() =~= old(self).errors_view() + Seq::<SpecError>::empty());
            }
            Duration::default()
        }
    }

    /// Read a trailing repeat count if one follows; anything else counts
    /// once.
    fn parse_repeat(&mut self) -> (c: u32)
        requires
            old(self).wf(),
        ensures
            final(self).wf(),
            final(self).stream() == old(self).stream(),
            final(self).errors_view() == old(self).errors_view(),
            ({
                let (cnt, j) = spec_parse_repeat(old(self).stream(), old(self).idx());
                c as int == cnt && final(self).idx() == j
            }),
    {
        if self.peek_token.token_type == TokenType::Number {
            let c = match parse_u32(self.peek_token.literal.as_str()) {
                Some(v) => v,
                None => 1,
            };
            self.next_token();
            c
        } else {
            1
        }
    }

    /// Parse a plain key press: optional rate, optional repeat count.
    fn parse_keypress(&mut self, command_type: TokenType) -> (c: KeyCommand)
        requires
            old(self).wf(),
        ensures
            final(self).wf(),
            final(self).stream() == old(self).stream(),
            ({
                let (cv, j, errs) = spec_parse_keypress(
                    old(self).stream(),
                    old(self).idx(),
                    command_type,
                );
                c@ == cv && final(self).idx() == j && final(self).errors_view() == old(
                    self,
                ).errors_view() + errs
            }),
    {
        let speed = self.parse_speed();
        let rate = if !speed.is_zero() {
            Some(speed)
        } else {
            None
        };
        let repeat_count = self.parse_repeat();
        KeyCommand { key: command_type, rate, repeat_count }
    }

    /// Parse a `Require` command: one string naming a program.
    fn parse_require(&mut self) -> (r: Result<RequireCommand, String>)
        requires
            old(self).wf(),
        ensures
            final(self).wf(),
            final(self).stream() == old(self).stream(),
            final(self).errors_view() == old(self).errors_view(),
            ({
                let (res, j) = spec_parse_require(old(self).stream(), old(self).idx());
                final(self).idx() == j && match (r, res) {
                    (Result::Ok(c), Result::Ok(cv)) => c@ == cv,
                    (Result::Err(m), Result::Err(mv)) => m@ == mv,
                    _ => false,
                }
            }),
    {
        if self.peek_token.token_type != TokenType::String {
            let mut m = self.current_token.literal.clone();
            m.append(" expects one string");
            Err(m)
        } else {
            let program = self.peek_token.literal.clone();
            self.next_token();
            Ok(RequireCommand { program })
        }
    }

    /// Parse an `Env` command: a variable-name token, then a string
    /// value.
    fn parse_env(&mut self) -> (r: Result<EnvCommand, String>)
        requires
            old(self).wf(),
        ensures
            final(self).wf(),
            final(self).stream() == old(self).stream(),
            final(self).errors_view() == old(self).errors_view(),
            ({
                let (res, j) = spec_parse_env(old(self).stream(), old(self).idx());
                final(self).idx() == j && match (r, res) {
                    (Result::Ok(c), Result::Ok(cv)) => c@ == cv,
                    (Result::Err(m), Result::Err(mv)) => m@ == mv,
                    _ => false,
                }
            }),
    {
        let variable = self.peek_token.literal.clone();
        self.next_token();
        if self.peek_token.token_type != TokenType::String {
            let mut m = self.current_token.literal.clone();
            m.append(" expects string");
            Err(m)
        } else {
            let value = self.peek_token.literal.clone();
            self.next_token();
            Ok(EnvCommand { variable, value })
        }
    }

    /// Parse an `Output` command: a string path whose extension gives
    /// the format, or a folder path with a trailing slash.
    fn parse_output(&mut self) -> (r: Result<OutputCommand, String>)
        requires
            old(self).wf(),
        ensures
            final(self).wf(),
            final(self).stream() == old(self).stream(),
            final(self).errors_view() == old(self).errors_view(),
            ({
                let (res, j) = spec_parse_output(old(self).stream(), old(self).idx());
                final(self).idx() == j && match (r, res) {
                    (Result::Ok(c), Result::Ok(cv)) => c@ == cv,
                    (Result::Err(m), Result::Err(mv)) => m@ == mv,
                    _ => false,
                }
            }),
    {
        if self.peek_token.token_type != TokenType::String {
            return Err(String::from_str("Expected file path after output"));
        }
        match path_extension(self.peek_token.literal.as_str()) {
            Some(ext) => {
                let mut format = String::from_str(".");
                format.append(ext.as_str());
                let path = self.peek_token.literal.clone();
                self.next_token();
                Ok(OutputCommand { path, format })
            },
            None => {
                if !ends_with_slash(self.peek_token.literal.as_str()) {
                    Err(String::from_str("Expected folder with trailing slash"))
                } else {
                    let path = self.peek_token.literal.clone();
                    self.next_token();
                    Ok(OutputCommand { path, format: String::from_str(".png") })
                }
            },
        }
    }

    /// Parse a `Screenshot` command: a string path ending in `.png`.
    fn parse_screenshot(&mut self) -> (r: Result<ScreenshotCommand, String>)
        requires
            old(self).wf(),
        ensures
            final(self).wf(),
            final(self).stream() == old(self).stream(),
            final(self).errors_view() == old(self).errors_view(),
            ({
                let (res, j) = spec_parse_screenshot(old(self).stream(), old(self).idx());
                final(self).idx() == j && match (r, res) {
                    (Result::Ok(c), Result::Ok(cv)) => c@ == cv,
                    (Result::Err(m), Result::Err(mv)) => m@ == mv,
                    _ => false,
                }
            }),
    {
        if self.peek_token.token_type != TokenType::String {
            self.next_token();
            return Err(String::from_str("Expected path after Screenshot"));
        }
        let is_png = match path_extension(self.peek_token.literal.as_str()) {
            Some(e) => crate::chars::str_eq(e.as_str(), "png"),
            None => false,
        };
        if !is_png {
            self.next_token();
            return Err(String::from_str("Expected file with .png extension"));
        }
        let path = self.peek_token.literal.clone();
        self.next_token();
        Ok(ScreenshotCommand { path })
    }

    /// Parse a `Sleep` command: an optional time value.
    fn parse_sleep(&mut self) -> (c: SleepCommand)
        requires
            old(self).wf(),
        ensures
            final(self).wf(),
            final(self).stream() == old(self).stream(),
            ({
                let (cv, j, errs) = spec_parse_sleep(old(self).stream(), old(self).idx());
                c@ == cv && final(self).idx() == j && final(self).errors_view() == old(
                    self,
                ).errors_view() + errs
            }),
    {
        if self.peek_token.token_type == TokenType::Number {
            let d = self.parse_time();
            let duration = if !d.is_zero() {
                Some(d)
            } else {
                None
            };
            SleepCommand { duration }
        } else {
            proof {
                assert(self.errors_view() =~= old(self).errors_view() + Seq::<SpecError>::empty());
            }
            SleepCommand { duration: None }
        }
    }

    /// Consume a run of consecutive string tokens, joining their
    /// literals with single spaces.
    fn read_string_run(&mut self) -> (text: String)
        requires
            old(self).wf(),
            tok(old(self).stream(), old(self).idx() + 1).kind == TokenType::String,
        ensures
            final(self).wf(),
            final(self).stream() == old(self).stream(),
            final(self).errors_view() == old(self).errors_view(),
            ({
                let e = string_run_end(old(self).stream(), old(self).idx() + 1);
                text@ == join_literals(old(self).stream(), old(self).idx() + 1, e)
                    && final(self).idx() == e - 1
            }),
    {
        let ghost s = self.stream@;
        let ghost e0 = self.errors.deep_view();
        let ghost start = self.idx@ + 1;
        let mut text = String::new();
        let mut first: bool = true;
        loop
            invariant
                self.wf(),
                self.stream@ == s,
                self.errors.deep_view() == e0,
                start - 1 <= self.idx@,
                first == (self.idx@ < start),
                tok(s, start).kind == TokenType::String,
                string_run_end(s, start) == string_run_end(s, self.idx@ + 1),
                self.idx@ >= start ==> text@ == join_literals(s, start, self.idx@ + 1),
                self.idx@ < start ==> text@ == Seq::<char>::empty() && self.idx@ == start - 1,
            ensures
                self.wf(),
                self.stream@ == s,
                self.errors.deep_view() == e0,
                self.idx@ >= start,
                text@ == join_literals(s, start, self.idx@ + 1),
                string_run_end(s, start) == self.idx@ + 1,
            decreases (if self.idx@ <= s.len() {
                s.len() - self.idx@
            } else {
                0
            }),
        {
            if self.peek_token.token_type != TokenType::String {
                break;
            }
            self.next_token();
            if first {
                text.append(self.current_token.literal.as_str());
                proof {
                    assert(Seq::<char>::empty() + tok(s, self.idx@).literal =~= tok(
                        s,
                        self.idx@,
                    ).literal);
                }
            } else {
                text.append(" ");
                text.append(self.current_token.literal.as_str());
                proof {
                    lemma_join_snoc(s, start, self.idx@);
                }
            }
            first = false;
        }
        text
    }

    /// Parse a `Type` command: optional rate, then the text to type.
    fn parse_type(&mut self) -> (r: Result<TypeCommand, String>)
        requires
            old(self).wf(),
        ensures
            final(self).wf(),
            final(self).stream() == old(self).stream(),
            ({
                let (res, j, errs) = spec_parse_type(old(self).stream(), old(self).idx());
                final(self).idx() == j && final(self).errors_view() == old(self).errors_view()
                    + errs && match (r, res) {
                    (Result::Ok(c), Result::Ok(cv)) => c@ == cv,
                    (Result::Err(m), Result::Err(mv)) => m@ == mv,
                    _ => false,
                }
            }),
    {
        let speed = self.parse_speed();
        let rate = if !speed.is_zero() {
            Some(speed)
        } else {
            None
        };
        if self.peek_token.token_type != TokenType::String {
            let mut m = self.current_token.literal.clone();
            m.append(" expects string");
            return Err(m);
        }
        let text = self.read_string_run();
        Ok(TypeCommand { rate, text })
    }

    /// Parse a `Copy` command: the text placed on the clipboard.
    fn parse_copy(&mut self) -> (r: Result<CopyCommand, String>)
        requires
            old(self).wf(),
        ensures
            final(self).wf(),
            final(self).stream() == old(self).stream(),
            final(self).errors_view() == old(self).errors_view(),
            ({
                let (res, j) = spec_parse_copy(old(self).stream(), old(self).idx());
                final(self).idx() == j && match (r, res) {
                    (Result::Ok(c), Result::Ok(cv)) => c@ == cv,
                    (Result::Err(m), Result::Err(mv)) => m@ == mv,
                    _ => false,
                }
            }),
    {
        if self.peek_token.token_type != TokenType::String {
            let mut m = self.current_token.literal.clone();
            m.append(" expects string");
            return Err(m);
        }
        let text = self.read_string_run();
        Ok(CopyCommand { text })
    }

    /// Parse a `Ctrl` command: optional rate, then `+<key>` groups with
    /// modifiers only before other keys.
    fn parse_ctrl(&mut self) -> (r: Result<CtrlCommand, String>)
        requires
            old(self).wf(),
        ensures
            final(self).wf(),
            final(self).stream() == old(self).stream(),
            ({
                let (res, j, errs) = spec_parse_ctrl(old(self).stream(), old(self).idx());
                final(self).idx() == j && final(self).errors_view() == old(self).errors_view()
                    + errs && match (r, res) {
                    (Result::Ok(c), Result::Ok(cv)) => c@ == cv,
                    (Result::Err(m), Result::Err(mv)) => m@ == mv,
                    _ => false,
                }
            }),
    {
        let ghost s = self.stream@;
        let ghost i0 = self.idx@;
        let ghost e0 = self.errors.deep_view();
        let dur = self.parse_speed();
        let rate = if !dur.is_zero() {
            Some(dur)
        } else {
            None
        };
        let ghost trip = spec_parse_speed(s, i0);
        let ghost j0 = self.idx@;
        let mut keys: Vec<String> = Vec::new();
        let mut in_chain: bool = true;
        proof {
            assert(keys.deep_view() =~= Seq::<Seq<char>>::empty());
        }
        loop
            invariant
                self.wf(),
                self.stream@ == s,
                s == old(self).stream(),
                i0 == old(self).idx(),
                e0 == old(self).errors_view(),
                trip == spec_parse_speed(s, i0),
                self.errors.deep_view() == e0 + trip.2,
                crate::command::opt_duration_view(rate) == spec_rate_opt(trip.0),
                j0 == trip.1,
                j0 <= self.idx@,
                spec_ctrl_keys(s, j0, true, Seq::<Seq<char>>::empty()) == spec_ctrl_keys(
                    s,
                    self.idx@,
                    in_chain,
                    keys.deep_view(),
                ),
            ensures
                self.wf(),
                self.stream@ == s,
                self.errors.deep_view() == e0 + trip.2,
                crate::command::opt_duration_view(rate) == spec_rate_opt(trip.0),
                self.peek_token.token_type != TokenType::Plus,
                spec_ctrl_keys(s, j0, true, Seq::<Seq<char>>::empty()) == spec_ctrl_keys(
                    s,
                    self.idx@,
                    in_chain,
                    keys.deep_view(),
                ),
            decreases (if self.idx@ <= s.len() {
                s.len() - self.idx@
            } else {
                0
            }),
        {
            if self.peek_token.token_type != TokenType::Plus {
                break;
            }
            let ghost idx_before = self.idx@;
            let ghost keys_before = keys.deep_view();
            self.next_token();
            let kw = crate::token::lookup_identifier(self.peek_token.literal.as_str());
            if crate::token::is_modifier(&kw) {
                if !in_chain {
                    return Err(String::from_str("Modifiers must come before other keys"));
                }
                keys.push(self.peek_token.literal.clone());
                self.next_token();
                proof {
                    assert(keys.deep_view() =~= keys_before.push(tok(s, idx_before + 2).literal));
                }
            } else {
                in_chain = false;
                let lit = self.peek_token.literal.clone();
                let kind_ok = matches!(
                    self.peek_token.token_type,
                    TokenType::Enter
                        | TokenType::Space
                        | TokenType::Backspace
                        | TokenType::Delete
                        | TokenType::Insert
                        | TokenType::Tab
                        | TokenType::Escape
                        | TokenType::Minus
                        | TokenType::At
                        | TokenType::LeftBracket
                        | TokenType::RightBracket
                        | TokenType::Caret
                        | TokenType::Backslash
                );
                let single = self.peek_token.token_type == TokenType::String
                    && lit.as_str().unicode_len() == 1;
                if kind_ok || single {
                    keys.push(lit);
                    self.next_token();
                    proof {
                        assert(keys.deep_view() =~= keys_before.push(
                            tok(s, idx_before + 2).literal,
                        ));
                    }
                } else {
                    let mut m = String::from_str("Invalid Ctrl key: ");
                    m.append(lit.as_str());
                    return Err(m);
                }
            }
        }
        if keys.len() == 0 {
            proof {
                assert(keys.deep_view() =~= Seq::<Seq<char>>::empty());
            }
            return Err(String::from_str("Expected at least one key after Ctrl"));
        }
        Ok(CtrlCommand { keys, rate })
    }

    /// Parse the one `+<key>` of an `Alt` or `Shift` command.
    fn parse_one_key_combo(&mut self, name: &str) -> (r: Result<CtrlCommand, String>)
        requires
            old(self).wf(),
        ensures
            final(self).wf(),
            final(self).stream() == old(self).stream(),
            ({
                let (res, j, errs) = spec_parse_altshift(old(self).stream(), old(self).idx(), name@);
                final(self).idx() == j && final(self).errors_view() == old(self).errors_view()
                    + errs && match (r, res) {
                    (Result::Ok(c), Result::Ok(cv)) => c@ == cv,
                    (Result::Err(m), Result::Err(mv)) => m@ == mv,
                    _ => false,
                }
            }),
    {
        let dur = self.parse_speed();
        let rate = if !dur.is_zero() {
            Some(dur)
        } else {
            None
        };
        if self.peek_token.token_type != TokenType::Plus {
            let mut m = String::from_str("Expected '+' after ");
            m.append(name);
            m.append(", got ");
            m.append(self.peek_token.literal.as_str());
            return Err(m);
        }
        self.next_token();
        let ok = matches!(
            self.peek_token.token_type,
            TokenType::String
                | TokenType::Enter
                | TokenType::LeftBracket
                | TokenType::RightBracket
                | TokenType::Tab
        );
        if !ok {
            let mut m = String::from_str("Invalid ");
            m.append(name);
            m.append(" key: ");
            m.append(self.peek_token.literal.as_str());
            return Err(m);
        }
        let key = self.peek_token.literal.clone();
        self.next_token();
        let mut keys: Vec<String> = Vec::new();
        keys.push(key);
        proof {
            assert(keys.deep_view() =~= seq![tok(old(self).stream(), final(self).idx()).literal]);
        }
        Ok(CtrlCommand { keys, rate })
    }

    /// Parse an `Alt` command.
    fn parse_alt(&mut self) -> (r: Result<CtrlCommand, String>)
        requires
            old(self).wf(),
        ensures
            final(self).wf(),
            final(self).stream() == old(self).stream(),
            ({
                let (res, j, errs) = spec_parse_altshift(
                    old(self).stream(),
                    old(self).idx(),
                    "Alt"@,
                );
                final(self).idx() == j && final(self).errors_view() == old(self).errors_view()
                    + errs && match (r, res) {
                    (Result::Ok(c), Result::Ok(cv)) => c@ == cv,
                    (Result::Err(m), Result::Err(mv)) => m@ == mv,
                    _ => false,
                }
            }),
    {
        self.parse_one_key_combo("Alt")
    }

    /// Parse a `Shift` command.
    fn parse_shift(&mut self) -> (r: Result<CtrlCommand, String>)
        requires
            old(self).wf(),
        ensures
            final(self).wf(),
            final(self).stream() == old(self).stream(),
            ({
                let (res, j, errs) = spec_parse_altshift(
                    old(self).stream(),
                    old(self).idx(),
                    "Shift"@,
                );
                final(self).idx() == j && final(self).errors_view() == old(self).errors_view()
                    + errs && match (r, res) {
                    (Result::Ok(c), Result::Ok(cv)) => c@ == cv,
                    (Result::Err(m), Result::Err(mv)) => m@ == mv,
                    _ => false,
                }
            }),
    {
        self.parse_one_key_combo("Shift")
    }

    /// Parse a `Wait` command: optional mode, optional timeout, optional
    /// pattern.
    fn parse_wait(&mut self) -> (r: Result<WaitCommand, String>)
        requires
            old(self).wf(),
        ensures
            final(self).wf(),
            final(self).stream() == old(self).stream(),
            ({
                let (res, j, errs) = spec_parse_wait(old(self).stream(), old(self).idx());
                final(self).idx() == j && final(self).errors_view() == old(self).errors_view()
                    + errs && match (r, res) {
                    (Result::Ok(c), Result::Ok(cv)) => c@ == cv,
                    (Result::Err(m), Result::Err(mv)) => m@ == mv,
                    _ => false,
                }
            }),
    {
        let mode: WaitMode;
        if self.peek_token.token_type == TokenType::Plus {
            self.next_token();
            let is_line = crate::chars::str_eq(self.peek_token.literal.as_str(), "Line");
            let is_screen = crate::chars::str_eq(self.peek_token.literal.as_str(), "Screen");
            if self.peek_token.token_type != TokenType::String || (!is_line && !is_screen) {
                proof {
                    assert(self.errors_view() =~= old(self).errors_view()
                        + Seq::<SpecError>::empty());
                }
                return Err(String::from_str("Wait+ expects Line or Screen"));
            }
            mode = if is_line {
                WaitMode::Line
            } else {
                WaitMode::Screen
            };
            self.next_token();
        } else {
            mode = WaitMode::Line;
        }
        let speed = self.parse_speed();
        let timeout = if !speed.is_zero() {
            Some(speed)
        } else {
            None
        };
        if self.peek_token.token_type == TokenType::Regex {
            self.next_token();
            if !regex_is_valid(self.current_token.literal.as_str()) {
                let mut m = String::from_str("Invalid regular expression '");
                m.append(self.current_token.literal.as_str());
                m.append("': invalid regex");
                return Err(m);
            }
            let pattern = Some(self.current_token.literal.clone());
            Ok(WaitCommand { mode, pattern, timeout })
        } else {
            Ok(WaitCommand { mode, pattern: None, timeout })
        }
    }

    /// Read a whole-number setting value from the peek token.
    fn set_num(&mut self) -> (r: Result<u32, String>)
        requires
            old(self).wf(),
        ensures
            final(self).wf(),
            final(self).stream() == old(self).stream(),
            final(self).errors_view() == old(self).errors_view(),
            ({
                let (res, j) = spec_set_num(old(self).stream(), old(self).idx());
                final(self).idx() == j && match (r, res) {
                    (Result::Ok(v), Result::Ok(vv)) => v == vv,
                    (Result::Err(m), Result::Err(mv)) => m@ == mv,
                    _ => false,
                }
            }),
    {
        match parse_u32(self.peek_token.literal.as_str()) {
            Some(v) => {
                self.next_token();
                Ok(v)
            },
            None => {
                let mut m = String::from_str("Invalid number: ");
                m.append(self.peek_token.literal.as_str());
                Err(m)
            },
        }
    }

    /// Read a decimal setting value from the peek token.
    fn set_dec(&mut self) -> (r: Result<Decimal, String>)
        requires
            old(self).wf(),
        ensures
            final(self).wf(),
            final(self).stream() == old(self).stream(),
            final(self).errors_view() == old(self).errors_view(),
            ({
                let (res, j) = spec_set_dec(old(self).stream(), old(self).idx());
                final(self).idx() == j && match (r, res) {
                    (Result::Ok(v), Result::Ok(vv)) => v == vv,
                    (Result::Err(m), Result::Err(mv)) => m@ == mv,
                    _ => false,
                }
            }),
    {
        match parse_decimal(self.peek_token.literal.as_str()) {
            Some(v) => {
                self.next_token();
                Ok(v)
            },
            None => {
                let mut m = String::from_str("Invalid number: ");
                m.append(self.peek_token.literal.as_str());
                Err(m)
            },
        }
    }

    /// Read a duration setting value: a number, then an optional unit.
    fn set_duration(&mut self, name: &str, minutes: bool) -> (r: Result<Duration, String>)
        requires
            old(self).wf(),
        ensures
            final(self).wf(),
            final(self).stream() == old(self).stream(),
            final(self).errors_view() == old(self).errors_view(),
            ({
                let (res, j) = spec_set_duration(old(self).stream(), old(self).idx(), name@, minutes);
                final(self).idx() == j && match (r, res) {
                    (Result::Ok(d), Result::Ok(ms)) => d@ == ms,
                    (Result::Err(m), Result::Err(mv)) => m@ == mv,
                    _ => false,
                }
            }),
    {
        if self.peek_token.token_type != TokenType::Number {
            let mut m = String::from_str("Set ");
            m.append(name);
            m.append(" expects a number, got ");
            m.append(self.peek_token.literal.as_str());
            return Err(m);
        }
        match parse_decimal(self.peek_token.literal.as_str()) {
            None => {
                let mut m = String::from_str("Invalid number: ");
                m.append(self.peek_token.literal.as_str());
                Err(m)
            },
            Some(d) => {
                self.next_token();
                let u = self.peek_token.token_type;
                if u == TokenType::Milliseconds || u == TokenType::Seconds || (minutes && u
                    == TokenType::Minutes) {
                    let dur = duration_for_unit(&d, &u);
                    self.next_token();
                    Ok(dur)
                } else {
                    Ok(duration_for_unit(&d, &TokenType::Seconds))
                }
            },
        }
    }

    /// Parse a `Set` command: a recognized setting keyword, then a value
    /// parsed by that setting's own grammar.
    fn parse_set(&mut self) -> (r: Result<SetCommand, String>)
        requires
            old(self).wf(),
        ensures
            final(self).wf(),
            final(self).stream() == old(self).stream(),
            final(self).errors_view() == old(self).errors_view(),
            ({
                let (res, j) = spec_parse_set(old(self).stream(), old(self).idx());
                final(self).idx() == j && match (r, res) {
                    (Result::Ok(c), Result::Ok(st)) => c@.setting == st,
                    (Result::Err(m), Result::Err(mv)) => m@ == mv,
                    _ => false,
                }
            }),
    {
        if !crate::token::is_setting(&self.peek_token.token_type) {
            let mut m = String::from_str("Unknown setting: ");
            m.append(self.peek_token.literal.as_str());
            return Err(m);
        }
        let setting_type = self.peek_token.token_type;
        self.next_token();
        let setting: Setting = if setting_type == TokenType::Shell {
            if !(self.peek_token.token_type == TokenType::String || self.peek_token.token_type
                == TokenType::Json) {
                let mut m = String::from_str("Set Shell expects string or JSON, got ");
                m.append(self.peek_token.literal.as_str());
                return Err(m);
            }
            let v = self.peek_token.literal.clone();
            self.next_token();
            Setting::Shell(v)
        } else if setting_type == TokenType::FontSize {
            match self.set_num() {
                Ok(v) => Setting::FontSize(v),
                Err(m) => {
                    return Err(m);
                },
            }
        } else if setting_type == TokenType::FontFamily {
            let v = self.peek_token.literal.clone();
            self.next_token();
            Setting::FontFamily(v)
        } else if setting_type == TokenType::Width {
            match self.set_num() {
                Ok(v) => Setting::Width(v),
                Err(m) => {
                    return Err(m);
                },
            }
        } else if setting_type == TokenType::Height {
            match self.set_num() {
                Ok(v) => Setting::Height(v),
                Err(m) => {
                    return Err(m);
                },
            }
        } else if setting_type == TokenType::LetterSpacing {
            match self.set_dec() {
                Ok(v) => Setting::LetterSpacing(v),
                Err(m) => {
                    return Err(m);
                },
            }
        } else if setting_type == TokenType::LineHeight {
            match self.set_dec() {
                Ok(v) => Setting::LineHeight(v),
                Err(m) => {
                    return Err(m);
                },
            }
        } else if setting_type == TokenType::LoopOffset {
            let lit = self.peek_token.literal.clone();
            self.next_token();
            if self.peek_token.token_type == TokenType::Percent {
                self.next_token();
            }
            let n = lit.as_str().unicode_len();
            let lit2 = if n > 0 && lit.as_str().get_char(n - 1) == '%' {
                let v = crate::chars::str_to_chars(lit.as_str());
                let trimmed = crate::chars::vec_substring(&v, 0, n - 1);
                proof {
                    assert(lit@.subrange(0, lit@.len() - 1) =~= lit@.drop_last());
                }
                crate::chars::chars_to_string(&trimmed)
            } else {
                lit
            };
            match parse_decimal(lit2.as_str()) {
                Some(d) => Setting::LoopOffset(d),
                None => {
                    let mut m = String::from_str("Invalid number: ");
                    m.append(lit2.as_str());
                    return Err(m);
                },
            }
        } else if setting_type == TokenType::Theme {
            let v = self.peek_token.literal.clone();
            self.next_token();
            Setting::Theme(v)
        } else if setting_type == TokenType::Padding {
            match self.set_num() {
                Ok(v) => Setting::Padding(v),
                Err(m) => {
                    return Err(m);
                },
            }
        } else if setting_type == TokenType::Framerate {
            match self.set_num() {
                Ok(v) => Setting::Framerate(v),
                Err(m) => {
                    return Err(m);
                },
            }
        } else if setting_type == TokenType::PlaybackSpeed {
            match self.set_dec() {
                Ok(v) => Setting::PlaybackSpeed(v),
                Err(m) => {
                    return Err(m);
                },
            }
        } else if setting_type == TokenType::MarginFill {
            let v = self.peek_token.literal.clone();
            self.next_token();
            Setting::MarginFill(v)
        } else if setting_type == TokenType::Margin {
            match self.set_num() {
                Ok(v) => Setting::Margin(v),
                Err(m) => {
                    return Err(m);
                },
            }
        } else if setting_type == TokenType::BorderRadius {
            match self.set_num() {
                Ok(v) => Setting::BorderRadius(v),
                Err(m) => {
                    return Err(m);
                },
            }
        } else if setting_type == TokenType::WindowBar {
            let v = self.peek_token.literal.clone();
            self.next_token();
            Setting::WindowBar(v)
        } else if setting_type == TokenType::WindowBarSize {
            match self.set_num() {
                Ok(v) => Setting::WindowBarSize(v),
                Err(m) => {
                    return Err(m);
                },
            }
        } else if setting_type == TokenType::TypingSpeed {
            match self.set_duration("TypingSpeed", false) {
                Ok(d) => Setting::TypingSpeed(d),
                Err(m) => {
                    return Err(m);
                },
            }
        } else if setting_type == TokenType::WaitTimeout {
            match self.set_duration("WaitTimeout", true) {
                Ok(d) => Setting::WaitTimeout(d),
                Err(m) => {
                    return Err(m);
                },
            }
        } else if setting_type == TokenType::WaitPattern {
            let lit = self.peek_token.literal.clone();
            if !regex_is_valid(lit.as_str()) {
                let mut m = String::from_str("Invalid regexp pattern: ");
                m.append(lit.as_str());
                return Err(m);
            }
            self.next_token();
            Setting::WaitPattern(lit)
        } else {
            // CursorBlink is the one setting left
            let lit = self.peek_token.literal.clone();
            if crate::chars::str_eq(lit.as_str(), "true") {
                self.next_token();
                Setting::CursorBlink(true)
            } else if crate::chars::str_eq(lit.as_str(), "false") {
                self.next_token();
                Setting::CursorBlink(false)
            } else {
                let mut m = String::from_str("Set CursorBlink expects true/false, got ");
                m.append(lit.as_str());
                return Err(m);
            }
        };
        Ok(SetCommand { setting })
    }

    /// Dispatch on the current token to the matching sub-parser.
    fn get_current_command(&mut self) -> (r: Result<Commands, String>)
        requires
            old(self).wf(),
        ensures
            final(self).wf(),
            final(self).stream() == old(self).stream(),
            ({
                let (res, j, errs) = spec_command(old(self).stream(), old(self).idx());
                final(self).idx() == j && final(self).errors_view() == old(self).errors_view()
                    + errs && match (r, res) {
                    (Result::Ok(c), Result::Ok(cv)) => c@ == cv,
                    (Result::Err(m), Result::Err(mv)) => m@ == mv,
                    _ => false,
                }
            }),
    {
        let k = self.current_token.token_type;
        if matches!(
            k,
            TokenType::Space
                | TokenType::Backspace
                | TokenType::Delete
                | TokenType::Insert
                | TokenType::Enter
                | TokenType::Escape
                | TokenType::Tab
                | TokenType::Down
                | TokenType::Left
                | TokenType::Right
                | TokenType::Up
                | TokenType::PageUp
                | TokenType::PageDown
        ) {
            let c = self.parse_keypress(k);
            Ok(Commands::Key(c))
        } else if k == TokenType::SetCmd {
            let r = self.parse_set();
            proof {
                assert(self.errors_view() =~= old(self).errors_view() + Seq::<SpecError>::empty());
            }
            match r {
                Ok(c) => Ok(Commands::SetCmd(c)),
                Err(m) => Err(m),
            }
        } else if k == TokenType::Output {
            let r = self.parse_output();
            proof {
                assert(self.errors_view() =~= old(self).errors_view() + Seq::<SpecError>::empty());
            }
            match r {
                Ok(c) => Ok(Commands::Output(c)),
                Err(m) => Err(m),
            }
        } else if k == TokenType::Sleep {
            let c = self.parse_sleep();
            Ok(Commands::Sleep(c))
        } else if k == TokenType::Type {
            match self.parse_type() {
                Ok(c) => Ok(Commands::Type(c)),
                Err(m) => Err(m),
            }
        } else if k == TokenType::Ctrl {
            match self.parse_ctrl() {
                Ok(c) => Ok(Commands::Ctrl(c)),
                Err(m) => Err(m),
            }
        } else if k == TokenType::Alt {
            match self.parse_alt() {
                Ok(c) => Ok(Commands::Alt(c)),
                Err(m) => Err(m),
            }
        } else if k == TokenType::Shift {
            match self.parse_shift() {
                Ok(c) => Ok(Commands::Shift(c)),
                Err(m) => Err(m),
            }
        } else if k == TokenType::Hide {
            proof {
                assert(self.errors_view() =~= old(self).errors_view() + Seq::<SpecError>::empty());
            }
            Ok(Commands::Hide)
        } else if k == TokenType::Require {
            let r = self.parse_require();
            proof {
                assert(self.errors_view() =~= old(self).errors_view() + Seq::<SpecError>::empty());
            }
            match r {
                Ok(c) => Ok(Commands::Require(c)),
                Err(m) => Err(m),
            }
        } else if k == TokenType::Show {
            proof {
                assert(self.errors_view() =~= old(self).errors_view() + Seq::<SpecError>::empty());
            }
            Ok(Commands::Show)
        } else if k == TokenType::Wait {
            match self.parse_wait() {
                Ok(c) => Ok(Commands::Wait(c)),
                Err(m) => Err(m),
            }
        } else if k == TokenType::Screenshot {
            let r = self.parse_screenshot();
            proof {
                assert(self.errors_view() =~= old(self).errors_view() + Seq::<SpecError>::empty());
            }
            match r {
                Ok(c) => Ok(Commands::Screenshot(c)),
                Err(m) => Err(m),
            }
        } else if k == TokenType::Copy {
            let r = self.parse_copy();
            proof {
                assert(self.errors_view() =~= old(self).errors_view() + Seq::<SpecError>::empty());
            }
            match r {
                Ok(c) => Ok(Commands::Copy(c)),
                Err(m) => Err(m),
            }
        } else if k == TokenType::Paste {
            proof {
                assert(self.errors_view() =~= old(self).errors_view() + Seq::<SpecError>::empty());
            }
            Ok(Commands::Paste)
        } else if k == TokenType::Env {
            let r = self.parse_env();
            proof {
                assert(self.errors_view() =~= old(self).errors_view() + Seq::<SpecError>::empty());
            }
            match r {
                Ok(c) => Ok(Commands::Env(c)),
                Err(m) => Err(m),
            }
        } else {
            let mut m = String::from_str("Invalid command: ");
            m.append(self.current_token.literal.as_str());
            proof {
                assert(self.errors_view() =~= old(self).errors_view() + Seq::<SpecError>::empty());
            }
            Err(m)
        }
    }

    /// Parse the whole source: every command in source order; the errors
    /// are collected on the side and never stop the loop.
    #[verifier::rlimit(60)]
    pub fn parse(&mut self) -> (cmds: Vec<Commands>)
        requires
            old(self).wf(),
        ensures
            final(self).wf(),
            final(self).stream() == old(self).stream(),
            ({
                let (cs, es) = spec_parse(old(self).stream(), old(self).idx());
                cmds.deep_view() == cs && final(self).errors_view() == old(self).errors_view() + es
            }),
    {
        let ghost s = self.stream@;
        let ghost i0 = self.idx@;
        let ghost e0 = self.errors.deep_view();
        let mut cmds: Vec<Commands> = Vec::new();
        proof {
            assert(cmds.deep_view() =~= Seq::<CommandsV>::empty());
        }
        loop
            invariant
                self.wf(),
                self.stream@ == s,
                s == old(self).stream(),
                i0 == old(self).idx(),
                e0 == old(self).errors_view(),
                i0 <= self.idx@,
                ({
                    let (cs, es) = spec_parse(s, i0);
                    let (cs2, es2) = spec_parse(s, self.idx@);
                    cs == cmds.deep_view() + cs2 && e0 + es == self.errors.deep_view() + es2
                }),
            ensures
                self.wf(),
                self.stream@ == s,
                tok(s, self.idx@).kind == TokenType::Eof,
                ({
                    let (cs, es) = spec_parse(s, i0);
                    let (cs2, es2) = spec_parse(s, self.idx@);
                    cs == cmds.deep_view() + cs2 && e0 + es == self.errors.deep_view() + es2
                }),
            decreases (if self.idx@ <= s.len() {
                s.len() - self.idx@
            } else {
                0
            }),
        {
            if self.current_token.token_type == TokenType::Eof {
                break;
            }
            if self.current_token.token_type == TokenType::Comment {
                self.next_token();
                continue;
            }
            let ghost pre = self.idx@;
            let ghost cmds_before = cmds.deep_view();
            let ghost errs_before = self.errors.deep_view();
            match self.get_current_command() {
                Ok(c) => {
                    let ghost cdv = c.deep_view();
                    cmds.push(c);
                    proof {
                        assert(cmds.deep_view() =~= cmds_before.push(cdv));
                    }
                },
                Err(m) => {
                    let tk = self.current_token.duplicate();
                    self.record_error(tk, m);
                },
            }
            self.next_token();
            proof {
                lemma_spec_command_bounds(s, pre);
                let (res, j, errs) = spec_command(s, pre);
                let jn = if j + 1 <= s.len() {
                    j + 1
                } else {
                    s.len() as int
                };
                if j + 1 > s.len() {
                    assert(tok(s, j + 1).kind == TokenType::Eof);
                    assert(tok(s, jn).kind == TokenType::Eof);
                    assert(spec_parse(s, j + 1) == spec_parse(s, jn));
                }
                let (cs_next, es_next) = spec_parse(s, jn);
                match res {
                    Result::Ok(cv) => {
                        assert(cmds_before + (seq![cv] + cs_next) =~= cmds_before.push(cv)
                            + cs_next);
                        assert(errs_before + (errs + es_next) =~= (errs_before + errs) + es_next);
                    },
                    Result::Err(mv) => {
                        let e = SpecError { token: tok(s, j), message: mv };
                        assert(errs_before + (errs + seq![e] + es_next) =~= ((errs_before + errs)
                            .push(e)) + es_next);
                    },
                }
            }
        }
        proof {
            let (cs2, es2) = spec_parse(s, self.idx@);
            assert(cs2 =~= Seq::<CommandsV>::empty());
            assert(es2 =~= Seq::<SpecError>::empty());
            assert(cmds.deep_view() + Seq::<CommandsV>::empty() =~= cmds.deep_view());
            assert(self.errors.deep_view() + Seq::<SpecError>::empty() =~= self.errors.deep_view());
        }
        cmds
    }

    /// Give up the parser and keep only the errors it recorded.
    pub fn into_errors(self) -> (r: Vec<ParseError>)
        ensures
            r.deep_view() == self.errors_view(),
    {
        let Parser { errors, .. } = self;
        errors
    }

    /// The errors recorded so far.
    pub fn errors(&self) -> (r: &[ParseError])
        ensures
            r.deep_view() == self.errors_view(),
    {
        let r = self.errors.as_slice();
        proof {
            assert(r.deep_view() =~= self.errors.deep_view());
        }
        r
    }
}

} // verus!
