//! The configuration record: layout numbers and the lists of key bindings.

use vstd::prelude::*;

verus! {

/// A key chord and some text bound to it: what a [`Command`] and an
/// [`Action`] are to the resolver.
pub struct KeyedText {
    pub key: Seq<char>,
    pub text: Seq<char>,
}

/// A key chord bound to a window-management action, given by name.
#[derive(Debug, Default)]
pub struct Action {
    pub keybind: String,
    pub action: String,
}

/// A key chord bound to a program to start.
#[derive(Debug, Default)]
pub struct Command {
    pub keybind: String,
    pub command: String,
}

impl View for Action {
    type V = KeyedText;

    open spec fn view(&self) -> KeyedText {
        KeyedText { key: self.keybind@, text: self.action@ }
    }
}

impl View for Command {
    type V = KeyedText;

    open spec fn view(&self) -> KeyedText {
        KeyedText { key: self.keybind@, text: self.command@ }
    }
}

/// The configuration: six layout numbers and six lists of bindings. The
/// base lists hold for every session, the `x` lists are the extended ones
/// of an X session, the `w` lists those of a compositor session.
#[derive(Debug)]
pub struct Config {
    pub max_main: u32,
    /// The share of the main area, in thousandths of the screen.
    pub ratio: u32,
    /// The step of a resize action, in thousandths of the screen.
    pub ratio_step: u32,
    pub outer_gaps: u32,
    pub inner_gaps: u32,
    pub top_gaps: u32,
    pub commands: Vec<Command>,
    pub actions: Vec<Action>,
    pub xcommands: Vec<Command>,
    pub xactions: Vec<Action>,
    pub wcommands: Vec<Command>,
    pub wactions: Vec<Action>,
}

/// The pair of a chord and a text, both given as literals.
pub open spec fn keyed(key: &str, text: &str) -> KeyedText {
    KeyedText { key: key@, text: text@ }
}

/// The chords and programs of a list of commands.
pub open spec fn command_texts(commands: Seq<Command>) -> Seq<KeyedText> {
    commands.map_values(|c: Command| c@)
}

/// The chords and names of a list of actions.
pub open spec fn action_texts(actions: Seq<Action>) -> Seq<KeyedText> {
    actions.map_values(|a: Action| a@)
}

/// The base commands of the default configuration.
pub open spec fn default_commands() -> Seq<KeyedText> {
    seq![keyed("M-S-Return", "alacritty"), keyed("M-x", "firefox")]
}

/// The base actions of the default configuration.
pub open spec fn default_actions() -> Seq<KeyedText> {
    seq![keyed("M-S-x", "eXit"), keyed("M-S-q", "kiLL")]
}

/// The extended commands of the default configuration.
pub open spec fn default_xcommands() -> Seq<KeyedText> {
    seq![keyed("M-A-e", "emacs"), keyed("M-C-v", "vim")]
}

/// The extended actions of the default configuration. The chord `M-S-Up`
/// stands twice in the list; the later entry is the one that counts.
pub open spec fn default_xactions() -> Seq<KeyedText> {
    seq![
        keyed("M-j", "focusNext"),
        keyed("M-f", "ToggleFullScreen"),
        keyed("M-k", "focusPrevious"),
        keyed("M-S-j", "SwapDown"),
        keyed("M-S-k", "SwapUp"),
        keyed("M-S-f", "floatfocused"),
        keyed("M-Tab", "ToggleTag"),
        keyed("M-bracketright", "FocusNextScreen"),
        keyed("M-bracketleft", "FocusPreviousScreen"),
        keyed("M-grave", "NextLayout"),
        keyed("M-S-grave", "PreviousLayout"),
        keyed("M-S-Up", "IncMain"),
        keyed("M-S-Down", "DecMain"),
        keyed("M-S-Right", "ExpandMain"),
        keyed("M-S-Up", "ShrinkMain"),
    ]
}

/// The compositor commands of the default configuration.
pub open spec fn default_wcommands() -> Seq<KeyedText> {
    seq![keyed("M-S-Return", "kitty")]
}

impl Command {
    /// The command `command` on the chord `keybind`.
    pub fn new(keybind: &str, command: &str) -> (c: Self)
        ensures
            c@ == keyed(keybind, command),
    {
        Command { keybind: String::from_str(keybind), command: String::from_str(command) }
    }
}

impl Action {
    /// The action named `action` on the chord `keybind`.
    pub fn new(keybind: &str, action: &str) -> (a: Self)
        ensures
            a@ == keyed(keybind, action),
    {
        Action { keybind: String::from_str(keybind), action: String::from_str(action) }
    }
}

impl Default for Config {
    /// The configuration of a first start: one window in the main area,
    /// which takes six tenths of the screen and grows or shrinks by one
    /// tenth; gaps of five pixels; and the bindings listed above.
    fn default() -> (cfg: Self)
        ensures
            cfg.max_main == 1,
            cfg.ratio == 600,
            cfg.ratio_step == 100,
            cfg.outer_gaps == 5,
            cfg.inner_gaps == 5,
            cfg.top_gaps == 0,
            command_texts(cfg.commands@) == default_commands(),
            action_texts(cfg.actions@) == default_actions(),
            command_texts(cfg.xcommands@) == default_xcommands(),
            action_texts(cfg.xactions@) == default_xactions(),
            command_texts(cfg.wcommands@) == default_wcommands(),
            cfg.wactions@.len() == 0,
    {
        let mut commands: Vec<Command> = Vec::new();
        commands.push(Command::new("M-S-Return", "alacritty"));
        commands.push(Command::new("M-x", "firefox"));
        assert(command_texts(commands@) =~= default_commands());

        let mut actions: Vec<Action> = Vec::new();
        actions.push(Action::new("M-S-x", "eXit"));
        actions.push(Action::new("M-S-q", "kiLL"));
        assert(action_texts(actions@) =~= default_actions());

        let mut xcommands: Vec<Command> = Vec::new();
        xcommands.push(Command::new("M-A-e", "emacs"));
        xcommands.push(Command::new("M-C-v", "vim"));
        assert(command_texts(xcommands@) =~= default_xcommands());

        let mut xactions: Vec<Action> = Vec::new();
        xactions.push(Action::new("M-j", "focusNext"));
        xactions.push(Action::new("M-f", "ToggleFullScreen"));
        xactions.push(Action::new("M-k", "focusPrevious"));
        xactions.push(Action::new("M-S-j", "SwapDown"));
        xactions.push(Action::new("M-S-k", "SwapUp"));
        xactions.push(Action::new("M-S-f", "floatfocused"));
        xactions.push(Action::new("M-Tab", "ToggleTag"));
        xactions.push(Action::new("M-bracketright", "FocusNextScreen"));
        xactions.push(Action::new("M-bracketleft", "FocusPreviousScreen"));
        xactions.push(Action::new("M-grave", "NextLayout"));
        xactions.push(Action::new("M-S-grave", "PreviousLayout"));
        xactions.push(Action::new("M-S-Up", "IncMain"));
        xactions.push(Action::new("M-S-Down", "DecMain"));
        xactions.push(Action::new("M-S-Right", "ExpandMain"));
        xactions.push(Action::new("M-S-Up", "ShrinkMain"));
        assert(action_texts(xactions@) =~= default_xactions());

        let mut wcommands: Vec<Command> = Vec::new();
        wcommands.push(Command::new("M-S-Return", "kitty"));
        assert(command_texts(wcommands@) =~= default_wcommands());

        Config {
            max_main: 1,
            ratio: 600,
            ratio_step: 100,
            outer_gaps: 5,
            inner_gaps: 5,
            top_gaps: 0,
            commands,
            actions,
            xcommands,
            xactions,
            wcommands,
            wactions: Vec::new(),
        }
    }
}

} // verus!
