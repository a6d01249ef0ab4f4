//! The token model: the alphabet of lexical symbols, the keyword table
//! mapping exact-case spellings to symbolic kinds, and the classification
//! of kinds into commands, settings and modifiers.

use vstd::prelude::*;
use vstd::string::*;

use crate::chars::char_to_uppercase;
use crate::chars::chars_to_string;
use crate::chars::spec_to_camel;
use crate::chars::spec_camel_from;
use crate::chars::lemma_find_underscore_found;
use crate::chars::str_eq;
use crate::chars::str_to_lowercase;

verus! {

/// One lexical symbol kind.
#[derive(Debug, Clone, Copy, PartialEq, Eq, Hash, Structural)]
pub enum TokenType {
    // Operators
    At,
    Equal,
    Plus,
    Percent,
    Slash,
    Backslash,
    Dot,
    Dash,
    Minus,
    RightBracket,
    LeftBracket,
    Caret,
    // Time units
    Em,
    Milliseconds,
    Minutes,
    Px,
    Seconds,
    // Special
    Eof,
    Illegal,
    // Keys
    Alt,
    Backspace,
    Ctrl,
    Delete,
    End,
    Enter,
    Escape,
    Home,
    Insert,
    PageDown,
    PageUp,
    Sleep,
    Space,
    Tab,
    Shift,
    // Literals
    Comment,
    Number,
    String,
    Json,
    Regex,
    Boolean,
    // Movement
    Down,
    Left,
    Right,
    Up,
    // Commands
    Hide,
    Output,
    Require,
    SetCmd,
    Show,
    Source,
    Type,
    Screenshot,
    Copy,
    Paste,
    Shell,
    Env,
    // Settings
    FontFamily,
    FontSize,
    Framerate,
    PlaybackSpeed,
    Height,
    Width,
    LetterSpacing,
    LineHeight,
    TypingSpeed,
    Padding,
    Theme,
    LoopOffset,
    MarginFill,
    Margin,
    WindowBar,
    WindowBarSize,
    BorderRadius,
    Wait,
    WaitTimeout,
    WaitPattern,
    CursorBlink,
}

/// One token produced by the lexer.  `line` is 1-based; `column` counts
/// characters consumed since the start of the current line.
#[derive(Debug, Clone, PartialEq, Eq)]
pub struct Token {
    pub token_type: TokenType,
    pub literal: String,
    pub line: usize,
    pub column: usize,
}

/// The mathematical value of a token.
pub struct SpecToken {
    pub kind: TokenType,
    pub literal: Seq<char>,
    pub line: int,
    pub col: int,
}

impl View for Token {
    type V = SpecToken;

    open spec fn view(&self) -> SpecToken {
        SpecToken {
            kind: self.token_type,
            literal: self.literal@,
            line: self.line as int,
            col: self.column as int,
        }
    }
}

impl Token {
    /// A copy of the token with the same value.
    pub fn duplicate(&self) -> (r: Token)
        ensures
            r@ == self@,
    {
        Token {
            token_type: self.token_type,
            literal: self.literal.clone(),
            line: self.line,
            column: self.column,
        }
    }
}

/// The token that marks the end of the input.
pub open spec fn eof_token() -> SpecToken {
    SpecToken { kind: TokenType::Eof, literal: "\u{0}"@, line: 0, col: 0 }
}

/// The keyword table: the kind for each exact-case keyword spelling; any
/// other identifier is a free-form `String` token.
pub open spec fn spec_lookup(s: Seq<char>) -> TokenType {
    if s == "em"@ {
        TokenType::Em
    } else if s == "px"@ {
        TokenType::Px
    } else if s == "ms"@ {
        TokenType::Milliseconds
    } else if s == "s"@ {
        TokenType::Seconds
    } else if s == "m"@ {
        TokenType::Minutes
    } else if s == "Set"@ {
        TokenType::SetCmd
    } else if s == "Sleep"@ {
        TokenType::Sleep
    } else if s == "Type"@ {
        TokenType::Type
    } else if s == "Enter"@ {
        TokenType::Enter
    } else if s == "Space"@ {
        TokenType::Space
    } else if s == "Backspace"@ {
        TokenType::Backspace
    } else if s == "Delete"@ {
        TokenType::Delete
    } else if s == "Insert"@ {
        TokenType::Insert
    } else if s == "Ctrl"@ {
        TokenType::Ctrl
    } else if s == "Alt"@ {
        TokenType::Alt
    } else if s == "Shift"@ {
        TokenType::Shift
    } else if s == "Down"@ {
        TokenType::Down
    } else if s == "Left"@ {
        TokenType::Left
    } else if s == "Right"@ {
        TokenType::Right
    } else if s == "Up"@ {
        TokenType::Up
    } else if s == "PageUp"@ {
        TokenType::PageUp
    } else if s == "PageDown"@ {
        TokenType::PageDown
    } else if s == "Tab"@ {
        TokenType::Tab
    } else if s == "Escape"@ {
        TokenType::Escape
    } else if s == "End"@ {
        TokenType::End
    } else if s == "Hide"@ {
        TokenType::Hide
    } else if s == "Require"@ {
        TokenType::Require
    } else if s == "Show"@ {
        TokenType::Show
    } else if s == "Output"@ {
        TokenType::Output
    } else if s == "Shell"@ {
        TokenType::Shell
    } else if s == "FontFamily"@ {
        TokenType::FontFamily
    } else if s == "MarginFill"@ {
        TokenType::MarginFill
    } else if s == "Margin"@ {
        TokenType::Margin
    } else if s == "WindowBar"@ {
        TokenType::WindowBar
    } else if s == "WindowBarSize"@ {
        TokenType::WindowBarSize
    } else if s == "BorderRadius"@ {
        TokenType::BorderRadius
    } else if s == "FontSize"@ {
        TokenType::FontSize
    } else if s == "Framerate"@ {
        TokenType::Framerate
    } else if s == "Height"@ {
        TokenType::Height
    } else if s == "LetterSpacing"@ {
        TokenType::LetterSpacing
    } else if s == "LineHeight"@ {
        TokenType::LineHeight
    } else if s == "PlaybackSpeed"@ {
        TokenType::PlaybackSpeed
    } else if s == "TypingSpeed"@ {
        TokenType::TypingSpeed
    } else if s == "Padding"@ {
        TokenType::Padding
    } else if s == "Theme"@ {
        TokenType::Theme
    } else if s == "Width"@ {
        TokenType::Width
    } else if s == "LoopOffset"@ {
        TokenType::LoopOffset
    } else if s == "WaitTimeout"@ {
        TokenType::WaitTimeout
    } else if s == "WaitPattern"@ {
        TokenType::WaitPattern
    } else if s == "Wait"@ {
        TokenType::Wait
    } else if s == "Source"@ {
        TokenType::Source
    } else if s == "CursorBlink"@ {
        TokenType::CursorBlink
    } else if s == "true"@ {
        TokenType::Boolean
    } else if s == "false"@ {
        TokenType::Boolean
    } else if s == "Screenshot"@ {
        TokenType::Screenshot
    } else if s == "Copy"@ {
        TokenType::Copy
    } else if s == "Paste"@ {
        TokenType::Paste
    } else if s == "Env"@ {
        TokenType::Env
    } else {
        TokenType::String
    }
}

/// Look an identifier up in the keyword table.
pub fn lookup_identifier(identifier: &str) -> (r: TokenType)
    ensures
        r == spec_lookup(identifier@),
{
    if str_eq(identifier, "em") {
        TokenType::Em
    } else if str_eq(identifier, "px") {
        TokenType::Px
    } else if str_eq(identifier, "ms") {
        TokenType::Milliseconds
    } else if str_eq(identifier, "s") {
        TokenType::Seconds
    } else if str_eq(identifier, "m") {
        TokenType::Minutes
    } else if str_eq(identifier, "Set") {
        TokenType::SetCmd
    } else if str_eq(identifier, "Sleep") {
        TokenType::Sleep
    } else if str_eq(identifier, "Type") {
        TokenType::Type
    } else if str_eq(identifier, "Enter") {
        TokenType::Enter
    } else if str_eq(identifier, "Space") {
        TokenType::Space
    } else if str_eq(identifier, "Backspace") {
        TokenType::Backspace
    } else if str_eq(identifier, "Delete") {
        TokenType::Delete
    } else if str_eq(identifier, "Insert") {
        TokenType::Insert
    } else if str_eq(identifier, "Ctrl") {
        TokenType::Ctrl
    } else if str_eq(identifier, "Alt") {
        TokenType::Alt
    } else if str_eq(identifier, "Shift") {
        TokenType::Shift
    } else if str_eq(identifier, "Down") {
        TokenType::Down
    } else if str_eq(identifier, "Left") {
        TokenType::Left
    } else if str_eq(identifier, "Right") {
        TokenType::Right
    } else if str_eq(identifier, "Up") {
        TokenType::Up
    } else if str_eq(identifier, "PageUp") {
        TokenType::PageUp
    } else if str_eq(identifier, "PageDown") {
        TokenType::PageDown
    } else if str_eq(identifier, "Tab") {
        TokenType::Tab
    } else if str_eq(identifier, "Escape") {
        TokenType::Escape
    } else if str_eq(identifier, "End") {
        TokenType::End
    } else if str_eq(identifier, "Hide") {
        TokenType::Hide
    } else if str_eq(identifier, "Require") {
        TokenType::Require
    } else if str_eq(identifier, "Show") {
        TokenType::Show
    } else if str_eq(identifier, "Output") {
        TokenType::Output
    } else if str_eq(identifier, "Shell") {
        TokenType::Shell
    } else if str_eq(identifier, "FontFamily") {
        TokenType::FontFamily
    } else if str_eq(identifier, "MarginFill") {
        TokenType::MarginFill
    } else if str_eq(identifier, "Margin") {
        TokenType::Margin
    } else if str_eq(identifier, "WindowBar") {
        TokenType::WindowBar
    } else if str_eq(identifier, "WindowBarSize") {
        TokenType::WindowBarSize
    } else if str_eq(identifier, "BorderRadius") {
        TokenType::BorderRadius
    } else if str_eq(identifier, "FontSize") {
        TokenType::FontSize
    } else if str_eq(identifier, "Framerate") {
        TokenType::Framerate
    } else if str_eq(identifier, "Height") {
        TokenType::Height
    } else if str_eq(identifier, "LetterSpacing") {
        TokenType::LetterSpacing
    } else if str_eq(identifier, "LineHeight") {
        TokenType::LineHeight
    } else if str_eq(identifier, "PlaybackSpeed") {
        TokenType::PlaybackSpeed
    } else if str_eq(identifier, "TypingSpeed") {
        TokenType::TypingSpeed
    } else if str_eq(identifier, "Padding") {
        TokenType::Padding
    } else if str_eq(identifier, "Theme") {
        TokenType::Theme
    } else if str_eq(identifier, "Width") {
        TokenType::Width
    } else if str_eq(identifier, "LoopOffset") {
        TokenType::LoopOffset
    } else if str_eq(identifier, "WaitTimeout") {
        TokenType::WaitTimeout
    } else if str_eq(identifier, "WaitPattern") {
        TokenType::WaitPattern
    } else if str_eq(identifier, "Wait") {
        TokenType::Wait
    } else if str_eq(identifier, "Source") {
        TokenType::Source
    } else if str_eq(identifier, "CursorBlink") {
        TokenType::CursorBlink
    } else if str_eq(identifier, "true") {
        TokenType::Boolean
    } else if str_eq(identifier, "false") {
        TokenType::Boolean
    } else if str_eq(identifier, "Screenshot") {
        TokenType::Screenshot
    } else if str_eq(identifier, "Copy") {
        TokenType::Copy
    } else if str_eq(identifier, "Paste") {
        TokenType::Paste
    } else if str_eq(identifier, "Env") {
        TokenType::Env
    } else {
        TokenType::String
    }
}

/// The kinds that name a configuration setting after `Set`.
pub open spec fn spec_is_setting(token_type: TokenType) -> bool {
    token_type == TokenType::Shell || token_type == TokenType::FontFamily || token_type
        == TokenType::FontSize || token_type == TokenType::LetterSpacing || token_type
        == TokenType::LineHeight || token_type == TokenType::Framerate || token_type
        == TokenType::TypingSpeed || token_type == TokenType::Theme || token_type
        == TokenType::PlaybackSpeed || token_type == TokenType::Height || token_type
        == TokenType::Width || token_type == TokenType::Padding || token_type
        == TokenType::LoopOffset || token_type == TokenType::MarginFill || token_type
        == TokenType::Margin || token_type == TokenType::WindowBar || token_type
        == TokenType::WindowBarSize || token_type == TokenType::BorderRadius || token_type
        == TokenType::CursorBlink || token_type == TokenType::WaitTimeout || token_type
        == TokenType::WaitPattern
}

/// Whether the kind names a configuration setting.
pub fn is_setting(token_type: &TokenType) -> (r: bool)
    ensures
        r == spec_is_setting(*token_type),
{
    matches!(
        token_type,
        TokenType::Shell
            | TokenType::FontFamily
            | TokenType::FontSize
            | TokenType::LetterSpacing
            | TokenType::LineHeight
            | TokenType::Framerate
            | TokenType::TypingSpeed
            | TokenType::Theme
            | TokenType::PlaybackSpeed
            | TokenType::Height
            | TokenType::Width
            | TokenType::Padding
            | TokenType::LoopOffset
            | TokenType::MarginFill
            | TokenType::Margin
            | TokenType::WindowBar
            | TokenType::WindowBarSize
            | TokenType::BorderRadius
            | TokenType::CursorBlink
            | TokenType::WaitTimeout
            | TokenType::WaitPattern
    )
}

/// The kinds that may begin a command.
pub open spec fn spec_is_command(token_type: TokenType) -> bool {
    token_type == TokenType::Type || token_type == TokenType::Sleep || token_type == TokenType::Up
        || token_type == TokenType::Down || token_type == TokenType::Right || token_type
        == TokenType::Left || token_type == TokenType::PageUp || token_type == TokenType::PageDown
        || token_type == TokenType::Enter || token_type == TokenType::Backspace || token_type
        == TokenType::Delete || token_type == TokenType::Tab || token_type == TokenType::Escape
        || token_type == TokenType::Home || token_type == TokenType::Insert || token_type
        == TokenType::End || token_type == TokenType::Ctrl || token_type == TokenType::Source
        || token_type == TokenType::Screenshot || token_type == TokenType::Copy || token_type
        == TokenType::Paste || token_type == TokenType::Wait
}

/// Whether the kind may begin a command.
pub fn is_command(token_type: &TokenType) -> (r: bool)
    ensures
        r == spec_is_command(*token_type),
{
    matches!(
        token_type,
        TokenType::Type
            | TokenType::Sleep
            | TokenType::Up
            | TokenType::Down
            | TokenType::Right
            | TokenType::Left
            | TokenType::PageUp
            | TokenType::PageDown
            | TokenType::Enter
            | TokenType::Backspace
            | TokenType::Delete
            | TokenType::Tab
            | TokenType::Escape
            | TokenType::Home
            | TokenType::Insert
            | TokenType::End
            | TokenType::Ctrl
            | TokenType::Source
            | TokenType::Screenshot
            | TokenType::Copy
            | TokenType::Paste
            | TokenType::Wait
    )
}

/// The modifier keys that may precede the terminal key of a combination.
pub open spec fn spec_is_modifier(token_type: TokenType) -> bool {
    token_type == TokenType::Alt || token_type == TokenType::Shift
}

/// Whether the kind is a modifier key.
pub fn is_modifier(token_type: &TokenType) -> (r: bool)
    ensures
        r == spec_is_modifier(*token_type),
{
    matches!(token_type, TokenType::Alt | TokenType::Shift)
}

/// Camel-case a `_`-separated name: each part keeps its first character
/// uppercased and the remainder lowercased, and the parts are joined with
/// nothing between them.
pub fn to_camel(s: &str) -> (r: String)
    ensures
        r@ == spec_to_camel(s@),
{
    let n = s.unicode_len();
    let mut out = String::new();
    let mut start: usize = 0;
    loop
        invariant_except_break
            spec_to_camel(s@) == out@ + spec_camel_from(s@, start as int),
        invariant
            start <= n,
            n == s@.len(),
        ensures
            out@ == spec_to_camel(s@),
        decreases n - start,
    {
        // find the end of the current part
        let mut k: usize = start;
        while k < n && s.get_char(k) != '_'
            invariant
                start <= k <= n,
                n == s@.len(),
                forall|t: int| start <= t < k ==> s@[t] != '_',
            decreases n - k,
        {
            k = k + 1;
        }
        proof {
            lemma_find_underscore_found(s@, start as int, k as int);
        }
        // capitalize the part s[start..k]
        if k > start {
            let first = s.get_char(start);
            let up = char_to_uppercase(first);
            out.append(up.as_str());
            let mut rest: Vec<char> = Vec::new();
            let mut t: usize = start + 1;
            while t < k
                invariant
                    start + 1 <= t <= k,
                    k <= n,
                    n == s@.len(),
                    rest@ == s@.subrange(start + 1 as int, t as int),
                decreases k - t,
            {
                let c = s.get_char(t);
                rest.push(c);
                proof {
                    assert(s@.subrange(start + 1 as int, t + 1 as int) =~= s@.subrange(
                        start + 1 as int,
                        t as int,
                    ).push(s@[t as int]));
                }
                t = t + 1;
            }
            let rest_str = chars_to_string(&rest);
            let lowered = str_to_lowercase(rest_str.as_str());
            out.append(lowered.as_str());
            proof {
                let part = s@.subrange(start as int, k as int);
                assert(part[0] == s@[start as int]);
                assert(part.skip(1) =~= s@.subrange(start + 1 as int, k as int));
            }
        } else {
            proof {
                assert(s@.subrange(start as int, k as int) =~= Seq::<char>::empty());
            }
        }
        if k == n {
            proof {
                assert(spec_camel_from(s@, start as int) == crate::chars::spec_capitalize(
                    s@.subrange(start as int, k as int),
                ));
            }
            break;
        }
        start = k + 1;
    }
    out
}

/// The name of the kind, as it is spelled in the source of this crate.
pub fn variant_name(token_type: &TokenType) -> (r: &'static str)
    ensures
        r@ == spec_variant_name(*token_type),
{
    match token_type {
        TokenType::At => "At",
        TokenType::Equal => "Equal",
        TokenType::Plus => "Plus",
        TokenType::Percent => "Percent",
        TokenType::Slash => "Slash",
        TokenType::Backslash => "Backslash",
        TokenType::Dot => "Dot",
        TokenType::Dash => "Dash",
        TokenType::Minus => "Minus",
        TokenType::RightBracket => "RightBracket",
        TokenType::LeftBracket => "LeftBracket",
        TokenType::Caret => "Caret",
        TokenType::Em => "Em",
        TokenType::Milliseconds => "Milliseconds",
        TokenType::Minutes => "Minutes",
        TokenType::Px => "Px",
        TokenType::Seconds => "Seconds",
        TokenType::Eof => "Eof",
        TokenType::Illegal => "Illegal",
        TokenType::Alt => "Alt",
        TokenType::Backspace => "Backspace",
        TokenType::Ctrl => "Ctrl",
        TokenType::Delete => "Delete",
        TokenType::End => "End",
        TokenType::Enter => "Enter",
        TokenType::Escape => "Escape",
        TokenType::Home => "Home",
        TokenType::Insert => "Insert",
        TokenType::PageDown => "PageDown",
        TokenType::PageUp => "PageUp",
        TokenType::Sleep => "Sleep",
        TokenType::Space => "Space",
        TokenType::Tab => "Tab",
        TokenType::Shift => "Shift",
        TokenType::Comment => "Comment",
        TokenType::Number => "Number",
        TokenType::String => "String",
        TokenType::Json => "Json",
        TokenType::Regex => "Regex",
        TokenType::Boolean => "Boolean",
        TokenType::Down => "Down",
        TokenType::Left => "Left",
        TokenType::Right => "Right",
        TokenType::Up => "Up",
        TokenType::Hide => "Hide",
        TokenType::Output => "Output",
        TokenType::Require => "Require",
        TokenType::SetCmd => "Set",
        TokenType::Show => "Show",
        TokenType::Source => "Source",
        TokenType::Type => "Type",
        TokenType::Screenshot => "Screenshot",
        TokenType::Copy => "Copy",
        TokenType::Paste => "Paste",
        TokenType::Shell => "Shell",
        TokenType::Env => "Env",
        TokenType::FontFamily => "FontFamily",
        TokenType::FontSize => "FontSize",
        TokenType::Framerate => "Framerate",
        TokenType::PlaybackSpeed => "PlaybackSpeed",
        TokenType::Height => "Height",
        TokenType::Width => "Width",
        TokenType::LetterSpacing => "LetterSpacing",
        TokenType::LineHeight => "LineHeight",
        TokenType::TypingSpeed => "TypingSpeed",
        TokenType::Padding => "Padding",
        TokenType::Theme => "Theme",
        TokenType::LoopOffset => "LoopOffset",
        TokenType::MarginFill => "MarginFill",
        TokenType::Margin => "Margin",
        TokenType::WindowBar => "WindowBar",
        TokenType::WindowBarSize => "WindowBarSize",
        TokenType::BorderRadius => "BorderRadius",
        TokenType::Wait => "Wait",
        TokenType::WaitTimeout => "WaitTimeout",
        TokenType::WaitPattern => "WaitPattern",
        TokenType::CursorBlink => "CursorBlink",
    }
}

/// The name of the kind, at the specification level.
pub open spec fn spec_variant_name(token_type: TokenType) -> Seq<char> {
    match token_type {
        TokenType::At => "At"@,
        TokenType::Equal => "Equal"@,
        TokenType::Plus => "Plus"@,
        TokenType::Percent => "Percent"@,
        TokenType::Slash => "Slash"@,
        TokenType::Backslash => "Backslash"@,
        TokenType::Dot => "Dot"@,
        TokenType::Dash => "Dash"@,
        TokenType::Minus => "Minus"@,
        TokenType::RightBracket => "RightBracket"@,
        TokenType::LeftBracket => "LeftBracket"@,
        TokenType::Caret => "Caret"@,
        TokenType::Em => "Em"@,
        TokenType::Milliseconds => "Milliseconds"@,
        TokenType::Minutes => "Minutes"@,
        TokenType::Px => "Px"@,
        TokenType::Seconds => "Seconds"@,
        TokenType::Eof => "Eof"@,
        TokenType::Illegal => "Illegal"@,
        TokenType::Alt => "Alt"@,
        TokenType::Backspace => "Backspace"@,
        TokenType::Ctrl => "Ctrl"@,
        TokenType::Delete => "Delete"@,
        TokenType::End => "End"@,
        TokenType::Enter => "Enter"@,
        TokenType::Escape => "Escape"@,
        TokenType::Home => "Home"@,
        TokenType::Insert => "Insert"@,
        TokenType::PageDown => "PageDown"@,
        TokenType::PageUp => "PageUp"@,
        TokenType::Sleep => "Sleep"@,
        TokenType::Space => "Space"@,
        TokenType::Tab => "Tab"@,
        TokenType::Shift => "Shift"@,
        TokenType::Comment => "Comment"@,
        TokenType::Number => "Number"@,
        TokenType::String => "String"@,
        TokenType::Json => "Json"@,
        TokenType::Regex => "Regex"@,
        TokenType::Boolean => "Boolean"@,
        TokenType::Down => "Down"@,
        TokenType::Left => "Left"@,
        TokenType::Right => "Right"@,
        TokenType::Up => "Up"@,
        TokenType::Hide => "Hide"@,
        TokenType::Output => "Output"@,
        TokenType::Require => "Require"@,
        TokenType::SetCmd => "Set"@,
        TokenType::Show => "Show"@,
        TokenType::Source => "Source"@,
        TokenType::Type => "Type"@,
        TokenType::Screenshot => "Screenshot"@,
        TokenType::Copy => "Copy"@,
        TokenType::Paste => "Paste"@,
        TokenType::Shell => "Shell"@,
        TokenType::Env => "Env"@,
        TokenType::FontFamily => "FontFamily"@,
        TokenType::FontSize => "FontSize"@,
        TokenType::Framerate => "Framerate"@,
        TokenType::PlaybackSpeed => "PlaybackSpeed"@,
        TokenType::Height => "Height"@,
        TokenType::Width => "Width"@,
        TokenType::LetterSpacing => "LetterSpacing"@,
        TokenType::LineHeight => "LineHeight"@,
        TokenType::TypingSpeed => "TypingSpeed"@,
        TokenType::Padding => "Padding"@,
        TokenType::Theme => "Theme"@,
        TokenType::LoopOffset => "LoopOffset"@,
        TokenType::MarginFill => "MarginFill"@,
        TokenType::Margin => "Margin"@,
        TokenType::WindowBar => "WindowBar"@,
        TokenType::WindowBarSize => "WindowBarSize"@,
        TokenType::BorderRadius => "BorderRadius"@,
        TokenType::Wait => "Wait"@,
        TokenType::WaitTimeout => "WaitTimeout"@,
        TokenType::WaitPattern => "WaitPattern"@,
        TokenType::CursorBlink => "CursorBlink"@,
    }
}

/// How the kind renders in diagnostics: operators as their character,
/// every other kind as its camel-cased name.
pub open spec fn spec_display_name(token_type: TokenType) -> Seq<char> {
    match token_type {
        TokenType::At => "@"@,
        TokenType::Equal => "="@,
        TokenType::Plus => "+"@,
        TokenType::Percent => "%"@,
        TokenType::Slash => "/"@,
        TokenType::Backslash => "\\"@,
        TokenType::Dot => "."@,
        TokenType::Dash => "-"@,
        TokenType::Minus => "-"@,
        TokenType::RightBracket => "]"@,
        TokenType::LeftBracket => "["@,
        TokenType::Caret => "^"@,
        _ => spec_to_camel(spec_variant_name(token_type)),
    }
}

impl TokenType {
    /// Render the kind for diagnostics.
    pub fn display_name(&self) -> (r: String)
        ensures
            r@ == spec_display_name(*self),
    {
        match self {
            TokenType::At => String::from_str("@"),
            TokenType::Equal => String::from_str("="),
            TokenType::Plus => String::from_str("+"),
            TokenType::Percent => String::from_str("%"),
            TokenType::Slash => String::from_str("/"),
            TokenType::Backslash => String::from_str("\\"),
            TokenType::Dot => String::from_str("."),
            TokenType::Dash => String::from_str("-"),
            TokenType::Minus => String::from_str("-"),
            TokenType::RightBracket => String::from_str("]"),
            TokenType::LeftBracket => String::from_str("["),
            TokenType::Caret => String::from_str("^"),
            _ => to_camel(variant_name(self)),
        }
    }
}

} // verus!
