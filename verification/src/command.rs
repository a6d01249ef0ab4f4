//! The typed representation of every parseable command and every
//! recognized configuration setting, together with the parse errors the
//! parser collects.
//!
//! A command value is only ever built by the successful completion of its
//! sub-parser; partially built commands are never exposed.  Each type has
//! a mathematical view, over sequences of characters and whole counts of
//! milliseconds, which the parser's contracts are stated over.

use vstd::prelude::*;

use crate::duration::Duration;
use crate::number::Decimal;
use crate::token::SpecToken;
use crate::token::Token;
use crate::token::TokenType;

verus! {

/// The view of an optional duration: its milliseconds, if present.
pub open spec fn opt_duration_view(o: Option<Duration>) -> Option<int> {
    match o {
        Option::Some(d) => Option::Some(d@),
        Option::None => Option::None,
    }
}

/// The view of an optional string.
pub open spec fn opt_string_view(o: Option<String>) -> Option<Seq<char>> {
    match o {
        Option::Some(s) => Option::Some(s@),
        Option::None => Option::None,
    }
}

/// One recorded parse problem: the token it was noticed at, and a
/// human-readable message.
#[derive(Debug, Clone, PartialEq, Eq)]
pub struct ParseError {
    pub token: Token,
    pub message: String,
}

/// The mathematical value of a parse error.
pub struct SpecError {
    pub token: SpecToken,
    pub message: Seq<char>,
}

impl View for ParseError {
    type V = SpecError;

    open spec fn view(&self) -> SpecError {
        SpecError { token: self.token@, message: self.message@ }
    }
}

impl DeepView for ParseError {
    type V = SpecError;

    open spec fn deep_view(&self) -> SpecError {
        self.view()
    }
}

/// A per-action option value.
#[derive(Debug, Clone, PartialEq)]
pub enum CommandOption {
    Rate(Duration),
    Scale(u32),
    Format(String),
    TypingSpeed(u16),
}

/// One argument of a command, as displayed in diagnostics.
#[derive(Debug, Clone, PartialEq)]
pub enum CommandArg {
    /// A repeat count, as in pressing a key several times.
    Repititions(u32),
    /// Text content typed by a `Type` command.
    Text(String),
    /// A file path.
    FilePath(String),
    /// A wait mode name.
    WaitMode(String),
    /// A regular-expression pattern.
    RegexPattern(String),
    /// A key combination.
    KeyCombination(String),
    /// An environment variable name.
    EnvVarName(String),
    /// The height setting marker.
    Height,
    FontSize(u32),
    Padding(u32),
    LoopOffset(String),
    WaitPattern(String),
    CursorBlink(bool),
    /// A plain boolean value.
    Yes(bool),
}

/// A `Type` command: optional per-character rate, and the text to type.
#[derive(Debug, Clone, PartialEq)]
pub struct TypeCommand {
    pub rate: Option<Duration>,
    pub text: String,
}

/// The mathematical value of a `Type` command.
pub struct TypeCommandV {
    pub rate: Option<int>,
    pub text: Seq<char>,
}

impl View for TypeCommand {
    type V = TypeCommandV;

    open spec fn view(&self) -> TypeCommandV {
        TypeCommandV { rate: opt_duration_view(self.rate), text: self.text@ }
    }
}

/// A `Sleep` command: how long to pause, if a time was given.
#[derive(Debug, Clone, PartialEq)]
pub struct SleepCommand {
    pub duration: Option<Duration>,
}

/// The mathematical value of a `Sleep` command.
pub struct SleepCommandV {
    pub duration: Option<int>,
}

impl View for SleepCommand {
    type V = SleepCommandV;

    open spec fn view(&self) -> SleepCommandV {
        SleepCommandV { duration: opt_duration_view(self.duration) }
    }
}

/// An `Output` command: where the recording goes, and the format taken
/// from the path's extension.
#[derive(Debug, Clone, PartialEq)]
pub struct OutputCommand {
    pub path: String,
    pub format: String,
}

/// The mathematical value of an `Output` command.
pub struct OutputCommandV {
    pub path: Seq<char>,
    pub format: Seq<char>,
}

impl View for OutputCommand {
    type V = OutputCommandV;

    open spec fn view(&self) -> OutputCommandV {
        OutputCommandV { path: self.path@, format: self.format@ }
    }
}

/// A key press: which key, an optional rate, and how many times.
#[derive(Debug, Clone, PartialEq)]
pub struct KeyCommand {
    pub key: TokenType,
    pub rate: Option<Duration>,
    pub repeat_count: u32,
}

/// The mathematical value of a key press.
pub struct KeyCommandV {
    pub key: TokenType,
    pub rate: Option<int>,
    pub repeat_count: int,
}

impl View for KeyCommand {
    type V = KeyCommandV;

    open spec fn view(&self) -> KeyCommandV {
        KeyCommandV {
            key: self.key,
            rate: opt_duration_view(self.rate),
            repeat_count: self.repeat_count as int,
        }
    }
}

/// A key combination: the ordered keys after `Ctrl`, `Alt` or `Shift`,
/// and an optional rate.
#[derive(Debug, Clone, PartialEq)]
pub struct CtrlCommand {
    pub keys: Vec<String>,
    pub rate: Option<Duration>,
}

/// The mathematical value of a key combination.
pub struct CtrlCommandV {
    pub keys: Seq<Seq<char>>,
    pub rate: Option<int>,
}

impl View for CtrlCommand {
    type V = CtrlCommandV;

    open spec fn view(&self) -> CtrlCommandV {
        CtrlCommandV { keys: self.keys.deep_view(), rate: opt_duration_view(self.rate) }
    }
}

/// One configuration setting with its parsed value.
#[derive(Debug, Clone, PartialEq)]
pub enum Setting {
    Shell(String),
    FontSize(u32),
    FontFamily(String),
    Width(u32),
    Height(u32),
    LetterSpacing(Decimal),
    LineHeight(Decimal),
    LoopOffset(Decimal),
    Theme(String),
    Padding(u32),
    Framerate(u32),
    PlaybackSpeed(Decimal),
    MarginFill(String),
    Margin(u32),
    BorderRadius(u32),
    WindowBar(String),
    WindowBarSize(u32),
    TypingSpeed(Duration),
    WaitTimeout(Duration),
    WaitPattern(String),
    CursorBlink(bool),
}

/// The mathematical value of a setting.
pub enum SettingV {
    Shell(Seq<char>),
    FontSize(u32),
    FontFamily(Seq<char>),
    Width(u32),
    Height(u32),
    LetterSpacing(Decimal),
    LineHeight(Decimal),
    LoopOffset(Decimal),
    Theme(Seq<char>),
    Padding(u32),
    Framerate(u32),
    PlaybackSpeed(Decimal),
    MarginFill(Seq<char>),
    Margin(u32),
    BorderRadius(u32),
    WindowBar(Seq<char>),
    WindowBarSize(u32),
    TypingSpeed(int),
    WaitTimeout(int),
    WaitPattern(Seq<char>),
    CursorBlink(bool),
}

impl View for Setting {
    type V = SettingV;

    open spec fn view(&self) -> SettingV {
        match self {
            Setting::Shell(s) => SettingV::Shell(s@),
            Setting::FontSize(v) => SettingV::FontSize(*v),
            Setting::FontFamily(s) => SettingV::FontFamily(s@),
            Setting::Width(v) => SettingV::Width(*v),
            Setting::Height(v) => SettingV::Height(*v),
            Setting::LetterSpacing(d) => SettingV::LetterSpacing(*d),
            Setting::LineHeight(d) => SettingV::LineHeight(*d),
            Setting::LoopOffset(d) => SettingV::LoopOffset(*d),
            Setting::Theme(s) => SettingV::Theme(s@),
            Setting::Padding(v) => SettingV::Padding(*v),
            Setting::Framerate(v) => SettingV::Framerate(*v),
            Setting::PlaybackSpeed(d) => SettingV::PlaybackSpeed(*d),
            Setting::MarginFill(s) => SettingV::MarginFill(s@),
            Setting::Margin(v) => SettingV::Margin(*v),
            Setting::BorderRadius(v) => SettingV::BorderRadius(*v),
            Setting::WindowBar(s) => SettingV::WindowBar(s@),
            Setting::WindowBarSize(v) => SettingV::WindowBarSize(*v),
            Setting::TypingSpeed(d) => SettingV::TypingSpeed(d@),
            Setting::WaitTimeout(d) => SettingV::WaitTimeout(d@),
            Setting::WaitPattern(s) => SettingV::WaitPattern(s@),
            Setting::CursorBlink(b) => SettingV::CursorBlink(*b),
        }
    }
}

/// A `Set` command: the setting it assigns.
#[derive(Debug, Clone, PartialEq)]
pub struct SetCommand {
    pub setting: Setting,
}

/// The mathematical value of a `Set` command.
pub struct SetCommandV {
    pub setting: SettingV,
}

impl View for SetCommand {
    type V = SetCommandV;

    open spec fn view(&self) -> SetCommandV {
        SetCommandV { setting: self.setting@ }
    }
}

/// A `Require` command: a program that must be available.
#[derive(Debug, Clone, PartialEq)]
pub struct RequireCommand {
    pub program: String,
}

/// The mathematical value of a `Require` command.
pub struct RequireCommandV {
    pub program: Seq<char>,
}

impl View for RequireCommand {
    type V = RequireCommandV;

    open spec fn view(&self) -> RequireCommandV {
        RequireCommandV { program: self.program@ }
    }
}

/// What a `Wait` command waits on.
#[derive(Debug, Clone, Copy, PartialEq, Eq, Structural)]
pub enum WaitMode {
    Line,
    Screen,
}

impl Default for WaitMode {
    /// Waiting watches the current line unless said otherwise.
    fn default() -> (r: WaitMode)
        ensures
            r == WaitMode::Line,
    {
        WaitMode::Line
    }
}

/// A `Wait` command: the mode, an optional timeout, and an optional
/// pattern, kept as its source text after it proved to be a valid
/// regular expression.
#[derive(Debug, Clone, PartialEq)]
pub struct WaitCommand {
    pub mode: WaitMode,
    pub pattern: Option<String>,
    pub timeout: Option<Duration>,
}

/// The mathematical value of a `Wait` command.
pub struct WaitCommandV {
    pub mode: WaitMode,
    pub pattern: Option<Seq<char>>,
    pub timeout: Option<int>,
}

impl View for WaitCommand {
    type V = WaitCommandV;

    open spec fn view(&self) -> WaitCommandV {
        WaitCommandV {
            mode: self.mode,
            pattern: opt_string_view(self.pattern),
            timeout: opt_duration_view(self.timeout),
        }
    }
}

/// A `Screenshot` command: where the image goes.
#[derive(Debug, Clone, PartialEq)]
pub struct ScreenshotCommand {
    pub path: String,
}

/// The mathematical value of a `Screenshot` command.
pub struct ScreenshotCommandV {
    pub path: Seq<char>,
}

impl View for ScreenshotCommand {
    type V = ScreenshotCommandV;

    open spec fn view(&self) -> ScreenshotCommandV {
        ScreenshotCommandV { path: self.path@ }
    }
}

/// A `Copy` command: the text placed on the clipboard.
#[derive(Debug, Clone, PartialEq)]
pub struct CopyCommand {
    pub text: String,
}

/// The mathematical value of a `Copy` command.
pub struct CopyCommandV {
    pub text: Seq<char>,
}

impl View for CopyCommand {
    type V = CopyCommandV;

    open spec fn view(&self) -> CopyCommandV {
        CopyCommandV { text: self.text@ }
    }
}

/// An `Env` command: a variable and the value assigned to it.
#[derive(Debug, Clone, PartialEq)]
pub struct EnvCommand {
    pub variable: String,
    pub value: String,
}

/// The mathematical value of an `Env` command.
pub struct EnvCommandV {
    pub variable: Seq<char>,
    pub value: Seq<char>,
}

impl View for EnvCommand {
    type V = EnvCommandV;

    open spec fn view(&self) -> EnvCommandV {
        EnvCommandV { variable: self.variable@, value: self.value@ }
    }
}

/// One parsed command.
#[derive(Debug, Clone, PartialEq)]
pub enum Commands {
    Type(TypeCommand),
    Sleep(SleepCommand),
    Output(OutputCommand),
    Key(KeyCommand),
    Ctrl(CtrlCommand),
    Alt(CtrlCommand),
    Shift(CtrlCommand),
    SetCmd(SetCommand),
    Require(RequireCommand),
    Wait(WaitCommand),
    Screenshot(ScreenshotCommand),
    Copy(CopyCommand),
    Paste,
    Env(EnvCommand),
    Hide,
    Show,
}

/// The mathematical value of a parsed command.
pub enum CommandsV {
    Type(TypeCommandV),
    Sleep(SleepCommandV),
    Output(OutputCommandV),
    Key(KeyCommandV),
    Ctrl(CtrlCommandV),
    Alt(CtrlCommandV),
    Shift(CtrlCommandV),
    SetCmd(SetCommandV),
    Require(RequireCommandV),
    Wait(WaitCommandV),
    Screenshot(ScreenshotCommandV),
    Copy(CopyCommandV),
    Paste,
    Env(EnvCommandV),
    Hide,
    Show,
}

impl View for Commands {
    type V = CommandsV;

    open spec fn view(&self) -> CommandsV {
        match self {
            Commands::Type(c) => CommandsV::Type(c@),
            Commands::Sleep(c) => CommandsV::Sleep(c@),
            Commands::Output(c) => CommandsV::Output(c@),
            Commands::Key(c) => CommandsV::Key(c@),
            Commands::Ctrl(c) => CommandsV::Ctrl(c@),
            Commands::Alt(c) => CommandsV::Alt(c@),
            Commands::Shift(c) => CommandsV::Shift(c@),
            Commands::SetCmd(c) => CommandsV::SetCmd(c@),
            Commands::Require(c) => CommandsV::Require(c@),
            Commands::Wait(c) => CommandsV::Wait(c@),
            Commands::Screenshot(c) => CommandsV::Screenshot(c@),
            Commands::Copy(c) => CommandsV::Copy(c@),
            Commands::Paste => CommandsV::Paste,
            Commands::Env(c) => CommandsV::Env(c@),
            Commands::Hide => CommandsV::Hide,
            Commands::Show => CommandsV::Show,
        }
    }
}

impl DeepView for Commands {
    type V = CommandsV;

    open spec fn deep_view(&self) -> CommandsV {
        self.view()
    }
}

/// A count rendered left-padded to two columns.
pub open spec fn spec_pad_left2(s: Seq<char>) -> Seq<char> {
    if s.len() >= 2 {
        s
    } else if s.len() == 1 {
        seq![' '] + s
    } else {
        seq![' ', ' ']
    }
}

/// A count rendered right-padded to two columns.
pub open spec fn spec_pad_right2(s: Seq<char>) -> Seq<char> {
    if s.len() >= 2 {
        s
    } else if s.len() == 1 {
        s + seq![' ']
    } else {
        seq![' ', ' ']
    }
}

fn pad_left2(s: String) -> (r: String)
    ensures
        r@ == spec_pad_left2(s@),
{
    let n = s.as_str().unicode_len();
    if n >= 2 {
        s
    } else if n == 1 {
        let mut r = String::from_str(" ");
        r.append(s.as_str());
        proof {
            reveal_strlit(" ");
            assert(" "@ =~= seq![' ']);
        }
        r
    } else {
        proof {
            reveal_strlit("  ");
            assert("  "@ =~= seq![' ', ' ']);
        }
        String::from_str("  ")
    }
}

fn pad_right2(s: String) -> (r: String)
    ensures
        r@ == spec_pad_right2(s@),
{
    let n = s.as_str().unicode_len();
    if n >= 2 {
        s
    } else if n == 1 {
        let mut r = s;
        r.append(" ");
        proof {
            reveal_strlit(" ");
            assert(" "@ =~= seq![' ']);
        }
        r
    } else {
        proof {
            reveal_strlit("  ");
            assert("  "@ =~= seq![' ', ' ']);
        }
        String::from_str("  ")
    }
}

/// How a parse error renders for terminal display:
/// `line:column │ message`, each count padded to two columns.
pub open spec fn spec_render_error(e: SpecError) -> Seq<char> {
    spec_pad_left2(crate::number::spec_dec_str(e.token.line as nat)) + ":"@ + spec_pad_right2(
        crate::number::spec_dec_str(e.token.col as nat),
    ) + " │ "@ + e.message
}

impl ParseError {
    /// Render the error for terminal display.
    pub fn render(&self) -> (r: String)
        ensures
            r@ == spec_render_error(self@),
    {
        let mut r = pad_left2(crate::number::dec_string(self.token.line as u64));
        r.append(":");
        let col = pad_right2(crate::number::dec_string(self.token.column as u64));
        r.append(col.as_str());
        r.append(" │ ");
        r.append(self.message.as_str());
        r
    }
}

/// How one command argument renders in diagnostics.
pub open spec fn spec_render_arg(a: CommandArg) -> Seq<char> {
    match a {
        CommandArg::Repititions(c) => crate::number::spec_dec_str(c as nat),
        CommandArg::Text(t) => "\""@ + t@ + "\""@,
        CommandArg::FilePath(p) => p@,
        CommandArg::WaitMode(m) => m@,
        CommandArg::RegexPattern(p) => "/"@ + p@ + "/"@,
        CommandArg::KeyCombination(c) => c@,
        CommandArg::EnvVarName(v) => "$"@ + v@,
        CommandArg::Height => "height"@,
        CommandArg::FontSize(v) => crate::number::spec_dec_str(v as nat) + "pt"@,
        CommandArg::Padding(v) => crate::number::spec_dec_str(v as nat) + "px"@,
        CommandArg::LoopOffset(o) => o@,
        CommandArg::WaitPattern(p) => p@,
        CommandArg::CursorBlink(b) => if b {
            "true"@
        } else {
            "false"@
        },
        CommandArg::Yes(b) => if b {
            "true"@
        } else {
            "false"@
        },
    }
}

impl CommandArg {
    /// Render the argument for diagnostics.
    pub fn render(&self) -> (r: String)
        ensures
            r@ == spec_render_arg(*self),
    {
        match self {
            CommandArg::Repititions(c) => crate::number::dec_string(*c as u64),
            CommandArg::Text(t) => {
                let mut r = String::from_str("\"");
                r.append(t.as_str());
                r.append("\"");
                r
            },
            CommandArg::FilePath(p) => p.clone(),
            CommandArg::WaitMode(m) => m.clone(),
            CommandArg::RegexPattern(p) => {
                let mut r = String::from_str("/");
                r.append(p.as_str());
                r.append("/");
                r
            },
            CommandArg::KeyCombination(c) => c.clone(),
            CommandArg::EnvVarName(v) => {
                let mut r = String::from_str("$");
                r.append(v.as_str());
                r
            },
            CommandArg::Height => String::from_str("height"),
            CommandArg::FontSize(v) => {
                let mut r = crate::number::dec_string(*v as u64);
                r.append("pt");
                r
            },
            CommandArg::Padding(v) => {
                let mut r = crate::number::dec_string(*v as u64);
                r.append("px");
                r
            },
            CommandArg::LoopOffset(o) => o.clone(),
            CommandArg::WaitPattern(p) => p.clone(),
            CommandArg::CursorBlink(b) => {
                if *b {
                    String::from_str("true")
                } else {
                    String::from_str("false")
                }
            },
            CommandArg::Yes(b) => {
                if *b {
                    String::from_str("true")
                } else {
                    String::from_str("false")
                }
            },
        }
    }

    /// Join the renderings of several arguments with single spaces.
    pub fn join_args(args: &[CommandArg]) -> (r: String)
        ensures
            r@ == spec_join_args(args@, 0),
    {
        CommandArg::join_args_from(args, 0)
    }

    fn join_args_from(args: &[CommandArg], i: usize) -> (r: String)
        requires
            i <= args@.len(),
        ensures
            r@ == spec_join_args(args@, i as int),
        decreases args@.len() - i,
    {
        if i >= args.len() {
            let r = String::new();
            proof {
                assert(r@ =~= Seq::<char>::empty());
            }
            r
        } else if i + 1 == args.len() {
            let a = &args[i];
            a.render()
        } else {
            let a = &args[i];
            let mut r = a.render();
            r.append(" ");
            let rest = CommandArg::join_args_from(args, i + 1);
            r.append(rest.as_str());
            r
        }
    }
}

/// The renderings of the arguments `args[i..]`, joined with single
/// spaces.
pub open spec fn spec_join_args(args: Seq<CommandArg>, i: int) -> Seq<char>
    decreases args.len() - i,
{
    if i < 0 || i >= args.len() {
        Seq::<char>::empty()
    } else if i + 1 == args.len() {
        spec_render_arg(args[i])
    } else {
        spec_render_arg(args[i]) + " "@ + spec_join_args(args, i + 1)
    }
}

/// How a command option renders in diagnostics.
pub open spec fn spec_render_option(o: CommandOption) -> Seq<char> {
    match o {
        CommandOption::Rate(d) => crate::number::spec_dec_str(d@ as nat) + "ms"@,
        CommandOption::Scale(v) => crate::number::spec_dec_str(v as nat) + "scale"@,
        CommandOption::Format(f) => f@,
        CommandOption::TypingSpeed(v) => crate::number::spec_dec_str(v as nat) + "wpm"@,
    }
}

impl CommandOption {
    /// Render the option for diagnostics.
    pub fn render(&self) -> (r: String)
        ensures
            r@ == spec_render_option(*self),
    {
        match self {
            CommandOption::Rate(d) => {
                let mut r = crate::number::dec_string_u128(d.as_millis());
                r.append("ms");
                r
            },
            CommandOption::Scale(v) => {
                let mut r = crate::number::dec_string(*v as u64);
                r.append("scale");
                r
            },
            CommandOption::Format(f) => f.clone(),
            CommandOption::TypingSpeed(v) => {
                let mut r = crate::number::dec_string(*v as u64);
                r.append("wpm");
                r
            },
        }
    }
}

} // verus!
