//! Laws of the lexer and the parser: properties that hold of every
//! input, proved from the specifications the executable code meets.

use vstd::prelude::*;

use crate::chars::is_alphabetic_char;
use crate::chars::is_digit_char;
use crate::chars::is_space_char;
use crate::command::CommandsV;
use crate::command::CopyCommandV;
use crate::command::CtrlCommandV;
use crate::command::EnvCommandV;
use crate::command::KeyCommandV;
use crate::command::OutputCommandV;
use crate::command::RequireCommandV;
use crate::command::ScreenshotCommandV;
use crate::command::SetCommandV;
use crate::command::SettingV;
use crate::command::SleepCommandV;
use crate::command::SpecError;
use crate::command::TypeCommandV;
use crate::command::WaitCommandV;
use crate::command::WaitMode;
use crate::lexer::delim_end;
use crate::lexer::ident_end;
use crate::lexer::lemma_delim_end_bounds;
use crate::lexer::lemma_delim_end_chars;
use crate::lexer::lemma_delim_end_full;
use crate::lexer::lemma_ident_end_bounds;
use crate::lexer::lemma_ident_end_chars;
use crate::lexer::lemma_ident_end_full;
use crate::lexer::lemma_number_end_bounds;
use crate::lexer::lemma_number_end_chars;
use crate::lexer::lemma_number_end_full;
use crate::lexer::lemma_skip_ws;
use crate::lexer::lex_init;
use crate::lexer::number_end;
use crate::lexer::spec_ident_char;
use crate::lexer::spec_next_token;
use crate::lexer::spec_number_char;
use crate::lexer::spec_skip_ws;
use crate::lexer::LexerModel;
use crate::number::sat_u64;
use crate::number::spec_parse_decimal;
use crate::number::spec_parse_u32;
use crate::number::pow10;
use crate::number::Decimal;
use crate::parser::spec_command;
use crate::parser::spec_ctrl_terminal;
use crate::parser::spec_dispatched;
use crate::parser::spec_is_keypress;
use crate::parser::spec_parse;
use crate::parser::spec_parse_time;
use crate::parser::tok;
use crate::pattern::regex_valid;
use crate::token::spec_is_modifier;
use crate::token::spec_lookup;
use crate::token::SpecToken;
use crate::token::TokenType;

verus! {

/// Re-lexing is idempotent: scanning the literal text of a token as a
/// little source of its own reproduces the same kind and the same
/// literal and consumes all of it — for every token whose literal still
/// carries its delimiters.  Comments, quoted strings and regexes keep
/// only the text between their delimiters, and the end marker stands
/// for no text at all, so those four kinds are left out.
pub proof fn lemma_relex_token(m: LexerModel)
    requires
        m.wf(),
        ({
            let t = spec_next_token(m).0;
            t.kind != TokenType::Eof && t.kind != TokenType::Comment && t.kind != TokenType::String
                && t.kind != TokenType::Regex
        }),
    ensures
        ({
            let t = spec_next_token(m).0;
            let (t2, m2) = spec_next_token(lex_init(t.literal));
            t2.kind == t.kind && t2.literal == t.literal && m2.pos == t.literal.len()
        }),
{
    lemma_skip_ws(m);
    let m1 = spec_skip_ws(m);
    let s = m1.input;
    let p = m1.pos;
    let t = spec_next_token(m).0;
    let lit = t.literal;
    let init = lex_init(lit);
    assert(p < s.len());
    let c = s[p];
    if c == '@' || c == '=' || c == ']' || c == '[' || c == '-' || c == '%' || c == '^' || c
        == '\\' || c == '+' {
        assert(lit =~= seq![c]);
        assert(spec_skip_ws(init) == init);
        assert(lit.subrange(0, 1) =~= lit);
    } else if c == '#' {
        assert(false);
    } else if c == '{' {
        let e = delim_end(s, p + 1, '}');
        lemma_delim_end_bounds(s, p + 1, '}');
        lemma_delim_end_chars(s, p + 1, '}');
        let inner = s.subrange(p + 1, e);
        reveal_strlit("{");
        reveal_strlit("}");
        assert(lit == "{"@ + inner + "}"@);
        assert(lit.len() == inner.len() + 2);
        assert(lit[0] == '{');
        assert(lit[lit.len() - 1] == '}');
        assert(forall|x: int| 1 <= x < lit.len() - 1 ==> lit[x] == inner[x - 1]);
        assert(forall|x: int|
            1 <= x < lit.len() - 1 ==> !(lit[x] == '}' || lit[x] == '\n' || lit[x] == '\r'));
        assert(spec_skip_ws(init) == init);
        lemma_delim_end_full(lit, 1, lit.len() - 1, '}');
        assert(lit.subrange(1, lit.len() - 1) =~= inner);
    } else if c == '`' || c == '\'' || c == '"' {
        assert(false);
    } else if c == '/' {
        assert(false);
    } else if is_digit_char(c) || (c == '.' && p + 1 < s.len() && is_digit_char(s[p + 1])) {
        let e = number_end(s, p + 1);
        lemma_number_end_bounds(s, p + 1);
        lemma_number_end_chars(s, p + 1);
        assert(lit == s.subrange(p, e));
        assert(lit.len() >= 1);
        assert(lit[0] == c);
        assert(forall|x: int| 1 <= x < lit.len() ==> spec_number_char(#[trigger] lit[x]));
        assert(spec_skip_ws(init) == init);
        if c == '.' {
            assert(spec_number_char(s[p + 1]));
            assert(number_end(s, p + 1) >= p + 2);
            assert(lit.len() >= 2);
            assert(is_digit_char(lit[1]));
        }
        lemma_number_end_full(lit, 1);
        assert(lit.subrange(0, lit.len() as int) =~= lit);
    } else if is_alphabetic_char(c) {
        let e = ident_end(s, p + 1);
        lemma_ident_end_bounds(s, p + 1);
        lemma_ident_end_chars(s, p + 1);
        assert(lit == s.subrange(p, e));
        assert(lit.len() >= 1);
        assert(lit[0] == c);
        assert(forall|x: int| 1 <= x < lit.len() ==> spec_ident_char(#[trigger] lit[x]));
        assert(!is_space_char(c));
        assert(spec_skip_ws(init) == init);
        assert(!is_digit_char(c));
        lemma_ident_end_full(lit, 1);
        assert(lit.subrange(0, lit.len() as int) =~= lit);
        assert(t.kind == spec_lookup(lit));
    } else {
        assert(lit =~= seq![c]);
        assert(!is_space_char(c));
        assert(spec_skip_ws(init) == init);
        assert(lit.subrange(0, 1) =~= lit);
    }
}

/// Error isolation: a token that no command grammar recognizes yields
/// exactly one error, and the rest of the stream parses exactly as it
/// would on its own.
pub proof fn lemma_error_isolation(s: Seq<SpecToken>, i: int)
    requires
        0 <= i,
        tok(s, i).kind != TokenType::Eof,
        tok(s, i).kind != TokenType::Comment,
        !spec_dispatched(tok(s, i).kind),
    ensures
        spec_parse(s, i).0 == spec_parse(s, i + 1).0,
        spec_parse(s, i).1 == seq![
            SpecError { token: tok(s, i), message: "Invalid command: "@ + tok(s, i).literal },
        ] + spec_parse(s, i + 1).1,
{
    assert(0 <= i < s.len());
    let e = SpecError { token: tok(s, i), message: "Invalid command: "@ + tok(s, i).literal };
    assert(Seq::<SpecError>::empty() + seq![e] + spec_parse(s, i + 1).1 =~= seq![e] + spec_parse(
        s,
        i + 1,
    ).1);
}

/// Error recovery: after any failed command the parser records the
/// failure's side errors and its own error, then resumes one token past
/// the point the command stopped at; the rest of the stream parses
/// exactly as it would on its own.  The resume point is one token, not
/// one line: spare tokens of the failed command may fail again, which
/// is the documented recovery granularity.
pub proof fn lemma_error_recovery(s: Seq<SpecToken>, i: int)
    requires
        0 <= i,
        tok(s, i).kind != TokenType::Eof,
        tok(s, i).kind != TokenType::Comment,
        spec_command(s, i).0 is Err,
    ensures
        ({
            let (res, j, errs) = spec_command(s, i);
            let jn = if j + 1 <= s.len() {
                j + 1
            } else {
                s.len() as int
            };
            spec_parse(s, i).0 == spec_parse(s, jn).0 && spec_parse(s, i).1 == errs + seq![
                SpecError { token: tok(s, j), message: res->Err_0 },
            ] + spec_parse(s, jn).1
        }),
{
}

/// Progress on success: a recognized command contributes exactly itself
/// and its side errors, and the rest of the stream parses exactly as it
/// would on its own from one token past the command.
pub proof fn lemma_command_progress(s: Seq<SpecToken>, i: int)
    requires
        0 <= i,
        tok(s, i).kind != TokenType::Eof,
        tok(s, i).kind != TokenType::Comment,
        spec_command(s, i).0 is Ok,
    ensures
        ({
            let (res, j, errs) = spec_command(s, i);
            let jn = if j + 1 <= s.len() {
                j + 1
            } else {
                s.len() as int
            };
            spec_parse(s, i).0 == seq![res->Ok_0] + spec_parse(s, jn).0 && spec_parse(s, i).1
                == errs + spec_parse(s, jn).1
        }),
{
}

/// Unit semantics of whole-number time values: a count under `ms` is so
/// many milliseconds, under `s` so many seconds, under `m` so many
/// minutes, and a bare count in a time position reads as seconds.
pub proof fn lemma_time_units(s: Seq<SpecToken>, i: int, d: Decimal)
    requires
        tok(s, i + 1).kind == TokenType::Number,
        spec_parse_decimal(tok(s, i + 1).literal) == Option::Some(d),
        d.scale == 0,
    ensures
        tok(s, i + 2).kind == TokenType::Milliseconds ==> spec_parse_time(s, i).0
            == d.mantissa as int,
        tok(s, i + 2).kind == TokenType::Seconds ==> spec_parse_time(s, i).0 == d.mantissa as int
            * 1000,
        tok(s, i + 2).kind == TokenType::Minutes ==> spec_parse_time(s, i).0 == sat_u64(
            d.mantissa as int * 60,
        ) * 1000,
        !(tok(s, i + 2).kind == TokenType::Milliseconds || tok(s, i + 2).kind == TokenType::Seconds
            || tok(s, i + 2).kind == TokenType::Minutes) ==> spec_parse_time(s, i).0
            == d.mantissa as int * 1000,
{
    assert(pow10(0) == 1);
    assert(d.mantissa as int * 1 == d.mantissa as int);
    assert((d.mantissa as int * 1) / 1 == d.mantissa as int);
    assert((d.mantissa as int * 60) / 1 == d.mantissa as int * 60);
}

/// Round trip of a plain key press: a lone key token is exactly one key
/// command pressing that key once.
pub proof fn lemma_round_trip_keypress(s: Seq<SpecToken>)
    requires
        s.len() == 1,
        spec_is_keypress(s[0].kind),
    ensures
        spec_parse(s, 0).0 == seq![
            CommandsV::Key(
                KeyCommandV { key: s[0].kind, rate: Option::None, repeat_count: 1 },
            ),
        ],
        spec_parse(s, 0).1 == Seq::<SpecError>::empty(),
{
    reveal_with_fuel(spec_parse, 3);
    assert(spec_parse(s, 0).0 =~= seq![
        CommandsV::Key(KeyCommandV { key: s[0].kind, rate: Option::None, repeat_count: 1 }),
    ]);
    assert(spec_parse(s, 0).1 =~= Seq::<SpecError>::empty());
}

/// Round trip of a key press with a rate and a repeat count: the rate
/// scales by its unit and the count is taken as given.
pub proof fn lemma_round_trip_keypress_rated(s: Seq<SpecToken>, d: Decimal, c: u32)
    requires
        s.len() == 5,
        spec_is_keypress(s[0].kind),
        s[1].kind == TokenType::At,
        s[2].kind == TokenType::Number,
        spec_parse_decimal(s[2].literal) == Option::Some(d),
        d.scale == 0,
        d.mantissa > 0,
        s[3].kind == TokenType::Milliseconds,
        s[4].kind == TokenType::Number,
        spec_parse_u32(s[4].literal) == Option::Some(c),
    ensures
        spec_parse(s, 0).0 == seq![
            CommandsV::Key(
                KeyCommandV {
                    key: s[0].kind,
                    rate: Option::Some(d.mantissa as int),
                    repeat_count: c as int,
                },
            ),
        ],
        spec_parse(s, 0).1 == Seq::<SpecError>::empty(),
{
    reveal_with_fuel(spec_parse, 3);
    lemma_time_units(s, 1, d);
    assert(spec_parse(s, 0).0 =~= seq![
        CommandsV::Key(
            KeyCommandV {
                key: s[0].kind,
                rate: Option::Some(d.mantissa as int),
                repeat_count: c as int,
            },
        ),
    ]);
    assert(spec_parse(s, 0).1 =~= Seq::<SpecError>::empty());
}

/// Round trip of `Type`: a `Type` token followed by one string is
/// exactly one type command with that text and no rate.
pub proof fn lemma_round_trip_type(s: Seq<SpecToken>)
    requires
        s.len() == 2,
        s[0].kind == TokenType::Type,
        s[1].kind == TokenType::String,
    ensures
        spec_parse(s, 0).0 == seq![
            CommandsV::Type(TypeCommandV { rate: Option::None, text: s[1].literal }),
        ],
        spec_parse(s, 0).1 == Seq::<SpecError>::empty(),
{
    reveal_with_fuel(spec_parse, 3);
    assert(crate::parser::string_run_end(s, 2) == 2);
    assert(crate::parser::string_run_end(s, 1) == 2);
    assert(spec_parse(s, 0).0 =~= seq![
        CommandsV::Type(TypeCommandV { rate: Option::None, text: s[1].literal }),
    ]);
    assert(spec_parse(s, 0).1 =~= Seq::<SpecError>::empty());
}

/// Round trip of `Copy`.
pub proof fn lemma_round_trip_copy(s: Seq<SpecToken>)
    requires
        s.len() == 2,
        s[0].kind == TokenType::Copy,
        s[1].kind == TokenType::String,
    ensures
        spec_parse(s, 0).0 == seq![CommandsV::Copy(CopyCommandV { text: s[1].literal })],
        spec_parse(s, 0).1 == Seq::<SpecError>::empty(),
{
    reveal_with_fuel(spec_parse, 3);
    assert(crate::parser::string_run_end(s, 2) == 2);
    assert(crate::parser::string_run_end(s, 1) == 2);
    assert(spec_parse(s, 0).0 =~= seq![CommandsV::Copy(CopyCommandV { text: s[1].literal })]);
    assert(spec_parse(s, 0).1 =~= Seq::<SpecError>::empty());
}

/// Round trip of `Sleep` with a whole number of seconds.
pub proof fn lemma_round_trip_sleep(s: Seq<SpecToken>, d: Decimal)
    requires
        s.len() == 2,
        s[0].kind == TokenType::Sleep,
        s[1].kind == TokenType::Number,
        spec_parse_decimal(s[1].literal) == Option::Some(d),
        d.scale == 0,
        d.mantissa > 0,
    ensures
        spec_parse(s, 0).0 == seq![
            CommandsV::Sleep(
                SleepCommandV { duration: Option::Some(d.mantissa as int * 1000) },
            ),
        ],
        spec_parse(s, 0).1 == Seq::<SpecError>::empty(),
{
    reveal_with_fuel(spec_parse, 3);
    lemma_time_units(s, 0, d);
    assert(spec_parse(s, 0).0 =~= seq![
        CommandsV::Sleep(SleepCommandV { duration: Option::Some(d.mantissa as int * 1000) }),
    ]);
    assert(spec_parse(s, 0).1 =~= Seq::<SpecError>::empty());
}

/// Round trip of `Require`.
pub proof fn lemma_round_trip_require(s: Seq<SpecToken>)
    requires
        s.len() == 2,
        s[0].kind == TokenType::Require,
        s[1].kind == TokenType::String,
    ensures
        spec_parse(s, 0).0 == seq![
            CommandsV::Require(RequireCommandV { program: s[1].literal }),
        ],
        spec_parse(s, 0).1 == Seq::<SpecError>::empty(),
{
    reveal_with_fuel(spec_parse, 3);
    assert(spec_parse(s, 0).0 =~= seq![
        CommandsV::Require(RequireCommandV { program: s[1].literal }),
    ]);
    assert(spec_parse(s, 0).1 =~= Seq::<SpecError>::empty());
}

/// Round trip of `Output` with a path that has an extension.
pub proof fn lemma_round_trip_output(s: Seq<SpecToken>, ext: Seq<char>)
    requires
        s.len() == 2,
        s[0].kind == TokenType::Output,
        s[1].kind == TokenType::String,
        crate::paths::spec_extension(s[1].literal) == Option::Some(ext),
    ensures
        spec_parse(s, 0).0 == seq![
            CommandsV::Output(OutputCommandV { path: s[1].literal, format: "."@ + ext }),
        ],
        spec_parse(s, 0).1 == Seq::<SpecError>::empty(),
{
    reveal_with_fuel(spec_parse, 3);
    assert(spec_parse(s, 0).0 =~= seq![
        CommandsV::Output(OutputCommandV { path: s[1].literal, format: "."@ + ext }),
    ]);
    assert(spec_parse(s, 0).1 =~= Seq::<SpecError>::empty());
}

/// Round trip of `Screenshot` with a `.png` path.
pub proof fn lemma_round_trip_screenshot(s: Seq<SpecToken>)
    requires
        s.len() == 2,
        s[0].kind == TokenType::Screenshot,
        s[1].kind == TokenType::String,
        crate::paths::spec_extension(s[1].literal) == Option::Some("png"@),
    ensures
        spec_parse(s, 0).0 == seq![
            CommandsV::Screenshot(ScreenshotCommandV { path: s[1].literal }),
        ],
        spec_parse(s, 0).1 == Seq::<SpecError>::empty(),
{
    reveal_with_fuel(spec_parse, 3);
    assert(spec_parse(s, 0).0 =~= seq![
        CommandsV::Screenshot(ScreenshotCommandV { path: s[1].literal }),
    ]);
    assert(spec_parse(s, 0).1 =~= Seq::<SpecError>::empty());
}

/// Round trip of `Env`.
pub proof fn lemma_round_trip_env(s: Seq<SpecToken>)
    requires
        s.len() == 3,
        s[0].kind == TokenType::Env,
        s[2].kind == TokenType::String,
    ensures
        spec_parse(s, 0).0 == seq![
            CommandsV::Env(EnvCommandV { variable: s[1].literal, value: s[2].literal }),
        ],
        spec_parse(s, 0).1 == Seq::<SpecError>::empty(),
{
    reveal_with_fuel(spec_parse, 3);
    assert(spec_parse(s, 0).0 =~= seq![
        CommandsV::Env(EnvCommandV { variable: s[1].literal, value: s[2].literal }),
    ]);
    assert(spec_parse(s, 0).1 =~= Seq::<SpecError>::empty());
}

/// Round trip of the argument-free commands.
pub proof fn lemma_round_trip_unit_commands(s: Seq<SpecToken>)
    requires
        s.len() == 1,
    ensures
        s[0].kind == TokenType::Hide ==> spec_parse(s, 0) == (
            seq![CommandsV::Hide],
            Seq::<SpecError>::empty(),
        ),
        s[0].kind == TokenType::Show ==> spec_parse(s, 0) == (
            seq![CommandsV::Show],
            Seq::<SpecError>::empty(),
        ),
        s[0].kind == TokenType::Paste ==> spec_parse(s, 0) == (
            seq![CommandsV::Paste],
            Seq::<SpecError>::empty(),
        ),
{
    reveal_with_fuel(spec_parse, 3);
    if s[0].kind == TokenType::Hide {
        assert(spec_parse(s, 0).0 =~= seq![CommandsV::Hide]);
        assert(spec_parse(s, 0).1 =~= Seq::<SpecError>::empty());
    }
    if s[0].kind == TokenType::Show {
        assert(spec_parse(s, 0).0 =~= seq![CommandsV::Show]);
        assert(spec_parse(s, 0).1 =~= Seq::<SpecError>::empty());
    }
    if s[0].kind == TokenType::Paste {
        assert(spec_parse(s, 0).0 =~= seq![CommandsV::Paste]);
        assert(spec_parse(s, 0).1 =~= Seq::<SpecError>::empty());
    }
}

/// Round trip of `Ctrl` with one terminal key.
pub proof fn lemma_round_trip_ctrl(s: Seq<SpecToken>)
    requires
        s.len() == 3,
        s[0].kind == TokenType::Ctrl,
        s[1].kind == TokenType::Plus,
        !spec_is_modifier(spec_lookup(s[2].literal)),
        spec_ctrl_terminal(s[2]),
    ensures
        spec_parse(s, 0).0 == seq![
            CommandsV::Ctrl(CtrlCommandV { keys: seq![s[2].literal], rate: Option::None }),
        ],
        spec_parse(s, 0).1 == Seq::<SpecError>::empty(),
{
    reveal_with_fuel(spec_parse, 3);
    reveal_with_fuel(crate::parser::spec_ctrl_keys, 3);
    assert(Seq::<Seq<char>>::empty().push(s[2].literal) =~= seq![s[2].literal]);
    assert(spec_parse(s, 0).0 =~= seq![
        CommandsV::Ctrl(CtrlCommandV { keys: seq![s[2].literal], rate: Option::None }),
    ]);
    assert(spec_parse(s, 0).1 =~= Seq::<SpecError>::empty());
}

/// Round trip of `Alt` and `Shift` with one key.
pub proof fn lemma_round_trip_altshift(s: Seq<SpecToken>)
    requires
        s.len() == 3,
        s[0].kind == TokenType::Alt || s[0].kind == TokenType::Shift,
        s[1].kind == TokenType::Plus,
        s[2].kind == TokenType::String,
    ensures
        s[0].kind == TokenType::Alt ==> spec_parse(s, 0).0 == seq![
            CommandsV::Alt(CtrlCommandV { keys: seq![s[2].literal], rate: Option::None }),
        ],
        s[0].kind == TokenType::Shift ==> spec_parse(s, 0).0 == seq![
            CommandsV::Shift(CtrlCommandV { keys: seq![s[2].literal], rate: Option::None }),
        ],
        spec_parse(s, 0).1 == Seq::<SpecError>::empty(),
{
    reveal_with_fuel(spec_parse, 3);
    if s[0].kind == TokenType::Alt {
        assert(spec_parse(s, 0).0 =~= seq![
            CommandsV::Alt(CtrlCommandV { keys: seq![s[2].literal], rate: Option::None }),
        ]);
    } else {
        assert(spec_parse(s, 0).0 =~= seq![
            CommandsV::Shift(CtrlCommandV { keys: seq![s[2].literal], rate: Option::None }),
        ]);
    }
    assert(spec_parse(s, 0).1 =~= Seq::<SpecError>::empty());
}

/// Round trip of `Wait` with a pattern that compiles.
pub proof fn lemma_round_trip_wait(s: Seq<SpecToken>)
    requires
        s.len() == 2,
        s[0].kind == TokenType::Wait,
        s[1].kind == TokenType::Regex,
        regex_valid(s[1].literal),
    ensures
        spec_parse(s, 0).0 == seq![
            CommandsV::Wait(
                WaitCommandV {
                    mode: WaitMode::Line,
                    pattern: Option::Some(s[1].literal),
                    timeout: Option::None,
                },
            ),
        ],
        spec_parse(s, 0).1 == Seq::<SpecError>::empty(),
{
    reveal_with_fuel(spec_parse, 3);
    assert(spec_parse(s, 0).0 =~= seq![
        CommandsV::Wait(
            WaitCommandV {
                mode: WaitMode::Line,
                pattern: Option::Some(s[1].literal),
                timeout: Option::None,
            },
        ),
    ]);
    assert(spec_parse(s, 0).1 =~= Seq::<SpecError>::empty());
}

/// Round trip of `Set FontSize` with a whole number.
pub proof fn lemma_round_trip_set_fontsize(s: Seq<SpecToken>, v: u32)
    requires
        s.len() == 3,
        s[0].kind == TokenType::SetCmd,
        s[1].kind == TokenType::FontSize,
        spec_parse_u32(s[2].literal) == Option::Some(v),
    ensures
        spec_parse(s, 0).0 == seq![
            CommandsV::SetCmd(SetCommandV { setting: SettingV::FontSize(v) }),
        ],
        spec_parse(s, 0).1 == Seq::<SpecError>::empty(),
{
    reveal_with_fuel(spec_parse, 3);
    assert(spec_parse(s, 0).0 =~= seq![
        CommandsV::SetCmd(SetCommandV { setting: SettingV::FontSize(v) }),
    ]);
    assert(spec_parse(s, 0).1 =~= Seq::<SpecError>::empty());
}

} // verus!
