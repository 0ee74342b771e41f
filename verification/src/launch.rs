//! Starting the game: command line, video backend, and the first frame of the
//! main game.

use vstd::prelude::*;

use crate::engine::{Engine, FRAME_TIME};
use crate::global::Globals;
use crate::json;
use crate::text;

verus! {

/// Where the control interface listens unless it is told.
pub const DEFAULT_BIND: &'static str = "127.0.0.1:8765";

/// How to present the game.
#[derive(Clone, Copy, Debug, PartialEq, Eq, Structural)]
pub enum VideoBackend {
    /// Without a window or a terminal.
    Headless,
    /// In a window.
    Gui,
    /// In a terminal.
    Console,
}

/// Why there is no backend for a player.
#[derive(Clone, Copy, Debug, PartialEq, Eq, Structural)]
pub enum BackendError {
    /// A terminal is asked for, and not supported.
    NoConsole,
    /// Neither windows nor terminals are supported.
    NoBackend,
}

/// How a terminal shows pictures.
#[derive(Clone, Copy, Debug, PartialEq, Eq, Structural)]
pub enum ConsoleMode {
    Auto,
    Kitty,
    Ansi,
}

impl VideoBackend {
    /// The backend for a player: the terminal where it is asked for, else a
    /// window where windows are supported, else the terminal.
    pub fn interactive(console_asked: bool, has_gui: bool, has_console: bool) -> (r: Result<VideoBackend, BackendError>)
        ensures
            r == if console_asked && !has_console {
                Err(BackendError::NoConsole)
            } else if console_asked {
                Ok(VideoBackend::Console)
            } else if has_gui {
                Ok(VideoBackend::Gui)
            } else if has_console {
                Ok(VideoBackend::Console)
            } else {
                Err(BackendError::NoBackend)
            },
    {
        if console_asked {
            if has_console {
                return Ok(VideoBackend::Console);
            }
            return Err(BackendError::NoConsole);
        }
        if has_gui {
            Ok(VideoBackend::Gui)
        } else if has_console {
            Ok(VideoBackend::Console)
        } else {
            Err(BackendError::NoBackend)
        }
    }

    /// Whether a sound device is opened.
    pub fn has_sound(self, disabled: bool) -> (b: bool)
        ensures
            b == (self == VideoBackend::Gui && !disabled),
    {
        match self {
            VideoBackend::Gui => !disabled,
            _ => false,
        }
    }

    /// The multiplier of the game clock: only without a window may it be set,
    /// by a text that spells a number above 0.
    pub fn tick_scale(self, setting: Option<&str>) -> (scale: u64)
        ensures
            scale == match setting {
                Some(s) => match text::parsed_u64(s@) {
                    Some(n) => if self == VideoBackend::Headless && n > 0 {
                        n
                    } else {
                        1
                    },
                    None => 1,
                },
                None => 1,
            },
    {
        match self {
            VideoBackend::Headless => match setting {
                Some(s) => match text::parse_u64(&text::chars_of(s)) {
                    Some(n) => if n > 0 {
                        n
                    } else {
                        1
                    },
                    None => 1,
                },
                None => 1,
            },
            _ => 1,
        }
    }
}

/// The mode that a text asks for; anything unknown asks for none.
pub open spec fn mode_of(s: Seq<char>) -> ConsoleMode {
    if s == "kitty"@ {
        ConsoleMode::Kitty
    } else if s == "ansi"@ {
        ConsoleMode::Ansi
    } else {
        ConsoleMode::Auto
    }
}

/// The mode that a text asks for.
pub fn console_mode(s: &str) -> (m: ConsoleMode)
    ensures
        m == mode_of(s@),
{
    if json::same_text(s, "kitty") {
        ConsoleMode::Kitty
    } else if json::same_text(s, "ansi") {
        ConsoleMode::Ansi
    } else {
        ConsoleMode::Auto
    }
}

/// What the command line asks for.
pub struct Options {
    pub offscreen: bool,
    pub mute: bool,
    /// A terminal, in a mode.
    pub console: Option<ConsoleMode>,
    /// The scale of the terminal's picture, as it was written.
    pub console_scale: Option<String>,
    /// Where the control interface listens.
    pub ui_driver: Option<String>,
    /// Time is advanced by the control interface.
    pub ui_step: bool,
}

/// What the command line asks for, in characters.
#[verifier::ext_equal]
pub struct OptionsView {
    pub offscreen: bool,
    pub mute: bool,
    pub console: Option<ConsoleMode>,
    pub console_scale: Option<Seq<char>>,
    pub ui_driver: Option<Seq<char>>,
    pub ui_step: bool,
}

/// The characters of a text that may be missing.
pub open spec fn text_of(s: Option<String>) -> Option<Seq<char>> {
    match s {
        Some(s) => Some(s@),
        None => None,
    }
}

impl View for Options {
    type V = OptionsView;

    open spec fn view(&self) -> OptionsView {
        OptionsView {
            offscreen: self.offscreen,
            mute: self.mute,
            console: self.console,
            console_scale: text_of(self.console_scale),
            ui_driver: text_of(self.ui_driver),
            ui_step: self.ui_step,
        }
    }
}

/// Nothing is asked for.
pub open spec fn no_options() -> OptionsView {
    OptionsView {
        offscreen: false,
        mute: false,
        console: None,
        console_scale: None,
        ui_driver: None,
        ui_step: false,
    }
}

/// What stands behind a prefix.
pub open spec fn behind(s: Seq<char>, prefix: Seq<char>) -> Option<Seq<char>> {
    if s.len() >= prefix.len() && s.take(prefix.len() as int) == prefix {
        Some(s.skip(prefix.len() as int))
    } else {
        None
    }
}

/// The options with one more argument; none for an argument that is not known.
pub open spec fn with_argument(o: OptionsView, arg: Seq<char>) -> Option<OptionsView> {
    if arg == "--ui-driver"@ {
        Some(OptionsView { ui_driver: Some(DEFAULT_BIND@), ..o })
    } else if arg == "--ui-step"@ {
        Some(OptionsView { ui_step: true, ..o })
    } else if arg == "--offscreen"@ {
        Some(OptionsView { offscreen: true, ..o })
    } else if arg == "--mute"@ {
        Some(OptionsView { mute: true, ..o })
    } else if arg == "--console"@ {
        Some(OptionsView { console: Some(ConsoleMode::Auto), ..o })
    } else if arg == "--console=kitty"@ {
        Some(OptionsView { console: Some(ConsoleMode::Kitty), ..o })
    } else if arg == "--console=ansi"@ {
        Some(OptionsView { console: Some(ConsoleMode::Ansi), ..o })
    } else if behind(arg, "--console-scale="@) is Some {
        Some(OptionsView { console_scale: behind(arg, "--console-scale="@), ..o })
    } else if behind(arg, "--ui-driver="@) is Some {
        Some(OptionsView { ui_driver: behind(arg, "--ui-driver="@), ..o })
    } else {
        None
    }
}

/// Whether an argument asks for help.
pub open spec fn asks_help(arg: Seq<char>) -> bool {
    arg == "--help"@ || arg == "-h"@
}

/// What a command line comes to.
pub enum Command {
    Run(Options),
    Help,
    /// The argument of this number is not known.
    Unknown(usize),
}

/// What a command line comes to, in characters.
pub enum CommandView {
    Run(OptionsView),
    Help,
    Unknown(int),
}

impl View for Command {
    type V = CommandView;

    open spec fn view(&self) -> CommandView {
        match self {
            Command::Run(o) => CommandView::Run(o@),
            Command::Help => CommandView::Help,
            Command::Unknown(i) => CommandView::Unknown(*i as int),
        }
    }
}

/// What the first `n` arguments come to: they are read from left to right, up
/// to one that asks for help or is not known.
pub open spec fn command_of(args: Seq<String>, n: int) -> CommandView
    decreases n,
{
    if n <= 0 {
        CommandView::Run(no_options())
    } else {
        match command_of(args, n - 1) {
            CommandView::Run(o) => if asks_help(args[n - 1]@) {
                CommandView::Help
            } else {
                match with_argument(o, args[n - 1]@) {
                    Some(o) => CommandView::Run(o),
                    None => CommandView::Unknown(n - 1),
                }
            },
            stop => stop,
        }
    }
}

/// What stands behind a prefix.
fn strip_prefix(s: &str, prefix: &str) -> (r: Option<String>)
    ensures
        text_of(r) == behind(s@, prefix@),
{
    let a: Vec<char> = text::chars_of(s);
    let p: Vec<char> = text::chars_of(prefix);
    if a.len() < p.len() {
        return None;
    }
    for i in 0..p.len()
        invariant
            a@ == s@,
            p@ == prefix@,
            p@.len() <= a@.len(),
            forall|k: int| 0 <= k < i ==> a@[k] == p@[k],
    {
        if a[i] != p[i] {
            assert(s@.take(prefix@.len() as int)[i as int] != prefix@[i as int]);
            return None;
        }
    }
    assert(s@.take(prefix@.len() as int) =~= prefix@);
    let mut rest: String = String::new();
    for i in p.len()..a.len()
        invariant
            a@ == s@,
            p@ == prefix@,
            p@.len() <= a@.len(),
            rest@ == s@.subrange(prefix@.len() as int, i as int),
    {
        rest.push(a[i]);
        assert(rest@ =~= s@.subrange(prefix@.len() as int, i + 1));
    }
    assert(rest@ =~= s@.skip(prefix@.len() as int));
    Some(rest)
}

fn owned(s: &str) -> (r: String)
    ensures
        r@ == s@,
{
    let mut r: String = String::new();
    r.push_str(s);
    assert(r@ =~= s@);
    r
}

/// The options with one more argument.
fn add_argument(o: Options, arg: &str) -> (r: Option<Options>)
    ensures
        r is Some <==> with_argument(o@, arg@) is Some,
        r matches Some(r) ==> with_argument(o@, arg@) == Some(r@),
{
    if json::same_text(arg, "--ui-driver") {
        Some(Options { ui_driver: Some(owned(DEFAULT_BIND)), ..o })
    } else if json::same_text(arg, "--ui-step") {
        Some(Options { ui_step: true, ..o })
    } else if json::same_text(arg, "--offscreen") {
        Some(Options { offscreen: true, ..o })
    } else if json::same_text(arg, "--mute") {
        Some(Options { mute: true, ..o })
    } else if json::same_text(arg, "--console") {
        Some(Options { console: Some(ConsoleMode::Auto), ..o })
    } else if json::same_text(arg, "--console=kitty") {
        Some(Options { console: Some(ConsoleMode::Kitty), ..o })
    } else if json::same_text(arg, "--console=ansi") {
        Some(Options { console: Some(ConsoleMode::Ansi), ..o })
    } else {
        match strip_prefix(arg, "--console-scale=") {
            Some(n) => Some(Options { console_scale: Some(n), ..o }),
            None => match strip_prefix(arg, "--ui-driver=") {
                Some(bind) => Some(Options { ui_driver: Some(bind), ..o }),
                None => None,
            },
        }
    }
}

/// Where the reading of arguments stops, it has stopped.
proof fn lemma_command_stops(args: Seq<String>, n: int, m: int)
    requires
        0 <= n <= m,
        command_of(args, n) !is Run,
    ensures
        command_of(args, m) == command_of(args, n),
    decreases m,
{
    if n < m {
        lemma_command_stops(args, n, m - 1);
    }
}

/// Read a command line, without the name of the program.
pub fn parse_args(args: &Vec<String>) -> (c: Command)
    ensures
        c@ == command_of(args@, args@.len() as int),
{
    let mut o: Options = Options {
        offscreen: false,
        mute: false,
        console: None,
        console_scale: None,
        ui_driver: None,
        ui_step: false,
    };
    for i in 0..args.len()
        invariant
            command_of(args@, i as int) == CommandView::Run(o@),
    {
        let arg: &str = args[i].as_str();
        if json::same_text(arg, "--help") || json::same_text(arg, "-h") {
            proof {
                lemma_command_stops(args@, i + 1, args@.len() as int);
            }
            return Command::Help;
        }
        match add_argument(o, arg) {
            Some(next) => {
                o = next;
            },
            None => {
                proof {
                    lemma_command_stops(args@, i + 1, args@.len() as int);
                }
                return Command::Unknown(i);
            },
        }
    }
    Command::Run(o)
}

impl Options {
    /// Whether there is no sound.
    pub fn silent(&self) -> (b: bool)
        ensures
            b == (self.offscreen || self.mute || self.console is Some),
    {
        self.offscreen || self.mute || self.console.is_some()
    }

    /// Where the control interface listens, if it does: stepping is useless
    /// without it, so it then listens where it is set to, or by default.
    pub fn driver_bind(&self, setting: Option<String>) -> (bind: Option<String>)
        ensures
            text_of(bind) == match self@.ui_driver {
                Some(b) => Some(b),
                None => match setting {
                    Some(s) => Some(s@),
                    None => if self.ui_step {
                        Some(DEFAULT_BIND@)
                    } else {
                        None
                    },
                },
            },
    {
        match &self.ui_driver {
            Some(b) => Some(owned(b.as_str())),
            None => match setting {
                Some(s) => Some(s),
                None => if self.ui_step {
                    Some(owned(DEFAULT_BIND))
                } else {
                    None
                },
            },
        }
    }
}

impl Engine {
    /// A save slot was chosen: the main game begins with all of it to be
    /// loaded.
    pub fn game_main(&mut self, slot: i32)
        ensures
            *final(self) == (Engine {
                globals: Globals {
                    in_main_game: true,
                    current_save_slot: slot as u8,
                    load_flags: old(self).globals.load_flags | 7,
                    entering_scene: true,
                    need_to_fade_in: true,
                    frame_num: 0,
                    ..old(self).globals
                },
                ..*old(self)
            }),
    {
        self.globals.in_main_game = true;
        self.globals.reload_in_next_tick(slot);
    }

    /// When the frame that begins now is over.
    pub fn frame_deadline(&self, now: u64) -> (t: u64)
        requires
            now <= u64::MAX - 100,
        ensures
            t == now + 100,
    {
        now + FRAME_TIME
    }
}

/// The last choice of a terminal mode counts, and whatever else is asked for
/// stays asked for.
pub proof fn law_last_console_counts(o: OptionsView)
    ensures
        with_argument(o, "--console=ansi"@) == Some(OptionsView { console: Some(ConsoleMode::Ansi), ..o }),
        with_argument(OptionsView { console: Some(ConsoleMode::Ansi), ..o }, "--console=kitty"@) == Some(
            OptionsView { console: Some(ConsoleMode::Kitty), ..o },
        ),
{
    reveal_strlit("--ui-driver");
    reveal_strlit("--ui-step");
    reveal_strlit("--offscreen");
    reveal_strlit("--mute");
    reveal_strlit("--console");
    reveal_strlit("--console=kitty");
    reveal_strlit("--console=ansi");
    let a = "--console=ansi"@;
    let k = "--console=kitty"@;
    assert(a.len() == 14 && k.len() == 15);
    assert("--console=kitty"@[10] == 'k');
    assert(a[2] == 'c' && k[2] == 'c');
    assert("--ui-driver"@[2] == 'u' && "--ui-step"@[2] == 'u' && "--offscreen"@[2] == 'o' && "--mute"@[2] == 'm');
    assert("--console"@.len() == 9);
}

/// Nothing behind a call for help is read.
pub proof fn law_help_ends_the_line(args: Seq<String>, i: int)
    requires
        0 <= i < args.len(),
        asks_help(args[i]@),
        command_of(args, i) is Run,
    ensures
        command_of(args, args.len() as int) is Help,
{
    lemma_command_stops(args, i + 1, args.len() as int);
}

/// Each switch turns on what it names, and nothing else.
pub proof fn law_switches_turn_on_what_they_name(o: OptionsView)
    ensures
        with_argument(o, "--mute"@) == Some(OptionsView { mute: true, ..o }),
        with_argument(o, "--offscreen"@) == Some(OptionsView { offscreen: true, ..o }),
        with_argument(o, "--ui-step"@) == Some(OptionsView { ui_step: true, ..o }),
        with_argument(o, "--console"@) == Some(OptionsView { console: Some(ConsoleMode::Auto), ..o }),
{
    reveal_strlit("--ui-driver");
    reveal_strlit("--ui-step");
    reveal_strlit("--offscreen");
    reveal_strlit("--mute");
    reveal_strlit("--console");
    assert("--ui-driver"@.len() == 11 && "--offscreen"@.len() == 11 && "--ui-step"@.len() == 9 && "--mute"@.len() == 6
        && "--console"@.len() == 9);
    assert("--ui-driver"@[2] == 'u' && "--offscreen"@[2] == 'o' && "--ui-step"@[2] == 'u' && "--console"@[2] == 'c');
}

/// What stands behind a prefix is the rest of a text that starts with it.
pub proof fn law_behind_a_prefix(prefix: Seq<char>, rest: Seq<char>, s: Seq<char>)
    ensures
        behind(prefix + rest, prefix) == Some(rest),
        behind(s, prefix) matches Some(r) ==> s == prefix + r,
{
    assert((prefix + rest).take(prefix.len() as int) =~= prefix);
    assert((prefix + rest).skip(prefix.len() as int) =~= rest);
    if behind(s, prefix) is Some {
        assert(s =~= prefix + s.skip(prefix.len() as int));
    }
}

/// An argument adds to the options read before it; the first that is not known
/// ends the reading, and is told.
pub proof fn law_arguments_are_read_in_order(args: Seq<String>, i: int)
    requires
        0 <= i < args.len(),
        command_of(args, i) is Run,
    ensures
        command_of(args, 0) == CommandView::Run(no_options()),
        ({
            let o = command_of(args, i)->Run_0;
            &&& asks_help(args[i]@) ==> command_of(args, i + 1) == CommandView::Help
            &&& !asks_help(args[i]@) && with_argument(o, args[i]@) is None ==> command_of(args, i + 1) == CommandView::Unknown(i)
            &&& !asks_help(args[i]@) && with_argument(o, args[i]@) is Some ==> command_of(args, i + 1) == CommandView::Run(
                with_argument(o, args[i]@)->0,
            )
        }),
        !no_options().mute && !no_options().offscreen && !no_options().ui_step && no_options().console is None
            && no_options().ui_driver is None,
{
}

} // verus!
