//! The action table: the closed set of window-management operations, the
//! names a configuration uses for them, and what each does to the store and
//! to the layout.

use vstd::prelude::*;
use crate::layout_spec::LayoutSpec;
use crate::window::WindowHandle;
use crate::workspace::StoreView;
use crate::workspace::Workspaces;

verus! {

/// A window-management operation.
#[derive(Clone, Copy, Debug, PartialEq, Eq, Structural)]
pub enum ActionTag {
    Kill,
    FocusNext,
    FocusPrevious,
    SwapDown,
    SwapUp,
    ToggleTag,
    FocusNextScreen,
    FocusPreviousScreen,
    NextLayout,
    PreviousLayout,
    IncMain,
    DecMain,
    ExpandMain,
    ShrinkMain,
    ToggleFullScreen,
    FloatFocused,
    Exit,
    /// Show the workspace with this index. No name stands for it: the
    /// resolver generates its bindings.
    FocusWorkspace(usize),
    /// Move the focused window to the workspace with this index. No name
    /// stands for it: the resolver generates its bindings.
    MoveFocusedTo(usize),
}

/// The operation a lower-case name stands for.
pub open spec fn action_named(name: Seq<char>) -> Option<ActionTag> {
    if name == "kill"@ {
        Some(ActionTag::Kill)
    } else if name == "focusnext"@ {
        Some(ActionTag::FocusNext)
    } else if name == "focusprevious"@ {
        Some(ActionTag::FocusPrevious)
    } else if name == "swapdown"@ {
        Some(ActionTag::SwapDown)
    } else if name == "togglefullscreen"@ {
        Some(ActionTag::ToggleFullScreen)
    } else if name == "floatfocused"@ {
        Some(ActionTag::FloatFocused)
    } else if name == "swapup"@ {
        Some(ActionTag::SwapUp)
    } else if name == "toggletag"@ {
        Some(ActionTag::ToggleTag)
    } else if name == "focusnextscreen"@ {
        Some(ActionTag::FocusNextScreen)
    } else if name == "focuspreviousscreen"@ {
        Some(ActionTag::FocusPreviousScreen)
    } else if name == "nextlayout"@ {
        Some(ActionTag::NextLayout)
    } else if name == "previouslayout"@ {
        Some(ActionTag::PreviousLayout)
    } else if name == "incmain"@ {
        Some(ActionTag::IncMain)
    } else if name == "decmain"@ {
        Some(ActionTag::DecMain)
    } else if name == "expandmain"@ {
        Some(ActionTag::ExpandMain)
    } else if name == "shrinkmain"@ {
        Some(ActionTag::ShrinkMain)
    } else if name == "exit"@ {
        Some(ActionTag::Exit)
    } else {
        None
    }
}

/// The lower-case form of a text, as `str::to_lowercase` of the standard
/// library gives it.
pub uninterp spec fn lowercase_of(text: Seq<char>) -> Seq<char>;

/// Calls `str::to_lowercase` of the standard library. Believed, not proved:
/// the result is the lower-case form of the argument, a function of the
/// argument's characters alone.
#[verifier::external_body]
fn to_lowercase(text: &str) -> (lower: String)
    ensures
        lower@ == lowercase_of(text@),
{
    text.to_lowercase()
}

/// Whether `name` reads `literal`.
fn reads(name: &String, literal: &str) -> (b: bool)
    ensures
        b == (name@ == literal@),
{
    *name == String::from_str(literal)
}

impl ActionTag {
    /// The operation that `name` stands for; `name` is taken as it is, and
    /// only the lower-case names are known.
    pub fn from_name(name: &str) -> (r: Option<ActionTag>)
        ensures
            r == action_named(name@),
    {
        let name = String::from_str(name);
        if reads(&name, "kill") {
            Some(ActionTag::Kill)
        } else if reads(&name, "focusnext") {
            Some(ActionTag::FocusNext)
        } else if reads(&name, "focusprevious") {
            Some(ActionTag::FocusPrevious)
        } else if reads(&name, "swapdown") {
            Some(ActionTag::SwapDown)
        } else if reads(&name, "togglefullscreen") {
            Some(ActionTag::ToggleFullScreen)
        } else if reads(&name, "floatfocused") {
            Some(ActionTag::FloatFocused)
        } else if reads(&name, "swapup") {
            Some(ActionTag::SwapUp)
        } else if reads(&name, "toggletag") {
            Some(ActionTag::ToggleTag)
        } else if reads(&name, "focusnextscreen") {
            Some(ActionTag::FocusNextScreen)
        } else if reads(&name, "focuspreviousscreen") {
            Some(ActionTag::FocusPreviousScreen)
        } else if reads(&name, "nextlayout") {
            Some(ActionTag::NextLayout)
        } else if reads(&name, "previouslayout") {
            Some(ActionTag::PreviousLayout)
        } else if reads(&name, "incmain") {
            Some(ActionTag::IncMain)
        } else if reads(&name, "decmain") {
            Some(ActionTag::DecMain)
        } else if reads(&name, "expandmain") {
            Some(ActionTag::ExpandMain)
        } else if reads(&name, "shrinkmain") {
            Some(ActionTag::ShrinkMain)
        } else if reads(&name, "exit") {
            Some(ActionTag::Exit)
        } else {
            None
        }
    }
}

/// The operation a configuration means by `action_str`, whatever the case
/// of its letters; `None` for a name that stands for nothing.
pub fn match_actions(action_str: &str) -> (r: Option<ActionTag>)
    ensures
        r == action_named(lowercase_of(action_str@)),
{
    let lower = to_lowercase(action_str);
    ActionTag::from_name(lower.as_str())
}

/// What a key is bound to.
#[derive(Debug, Clone, PartialEq, Eq)]
pub enum Effect {
    NamedAction(ActionTag),
    SpawnCommand(String),
}

/// An [`Effect`] with its text laid open.
pub enum EffectView {
    NamedAction(ActionTag),
    SpawnCommand(Seq<char>),
}

impl View for Effect {
    type V = EffectView;

    open spec fn view(&self) -> EffectView {
        match self {
            Effect::NamedAction(tag) => EffectView::NamedAction(*tag),
            Effect::SpawnCommand(command) => EffectView::SpawnCommand(command@),
        }
    }
}

impl Effect {
    /// A copy of the effect.
    pub fn duplicate(&self) -> (e: Effect)
        ensures
            e@ == self@,
    {
        match self {
            Effect::NamedAction(tag) => Effect::NamedAction(*tag),
            Effect::SpawnCommand(command) => Effect::SpawnCommand(command.clone()),
        }
    }
}

/// What is left to do outside the store once an effect has been applied.
#[derive(Debug, Clone, PartialEq, Eq)]
pub enum Reaction {
    /// Nothing changed; nothing to do.
    Nothing,
    /// The store or the layout changed: refresh the geometry.
    Refresh,
    /// The window left the store: close it, then refresh the geometry.
    Close(WindowHandle),
    /// The operation is the display server's to carry out.
    Forward(ActionTag),
    /// Start this program; the store is as it was.
    Spawn(String),
    /// Raise this window and give it the keyboard.
    Raise(WindowHandle),
    /// Take the keyboard from every window.
    ClearFocus,
    /// The key is bound to nothing: pass it on to the focused window.
    PassOn,
    /// Leave the main loop.
    Exit,
}

/// A [`Reaction`] with its text laid open.
pub enum ReactionView {
    Nothing,
    Refresh,
    Close(WindowHandle),
    Forward(ActionTag),
    Spawn(Seq<char>),
    Raise(WindowHandle),
    ClearFocus,
    PassOn,
    Exit,
}

impl View for Reaction {
    type V = ReactionView;

    open spec fn view(&self) -> ReactionView {
        match self {
            Reaction::Nothing => ReactionView::Nothing,
            Reaction::Refresh => ReactionView::Refresh,
            Reaction::Close(h) => ReactionView::Close(*h),
            Reaction::Forward(tag) => ReactionView::Forward(*tag),
            Reaction::Spawn(command) => ReactionView::Spawn(command@),
            Reaction::Raise(h) => ReactionView::Raise(*h),
            Reaction::ClearFocus => ReactionView::ClearFocus,
            Reaction::PassOn => ReactionView::PassOn,
            Reaction::Exit => ReactionView::Exit,
        }
    }
}

/// The state an effect works on, and what it leaves to do.
pub struct Step {
    pub store: StoreView,
    pub layout: LayoutSpec,
    pub reaction: ReactionView,
}

/// `ReactionView::Refresh` where `changed`, else `ReactionView::Nothing`.
pub open spec fn refresh_if(changed: bool) -> ReactionView {
    if changed {
        ReactionView::Refresh
    } else {
        ReactionView::Nothing
    }
}

/// What an operation does. Every operation is defined on every state: on a
/// workspace without windows, or without focus, the operations that need
/// one leave everything as it is.
pub open spec fn step_action(tag: ActionTag, store: StoreView, layout: LayoutSpec) -> Step {
    let shown = store.current();
    match tag {
        ActionTag::Kill => match shown.focused() {
            Some(w) => Step {
                store: store.detach(w.handle),
                layout,
                reaction: ReactionView::Close(w.handle),
            },
            None => Step { store, layout, reaction: ReactionView::Nothing },
        },
        ActionTag::FocusNext => Step {
            store: store.with_current(shown.focus_next()),
            layout,
            reaction: refresh_if(shown.windows.len() > 0),
        },
        ActionTag::FocusPrevious => Step {
            store: store.with_current(shown.focus_previous()),
            layout,
            reaction: refresh_if(shown.windows.len() > 0),
        },
        ActionTag::SwapDown => Step {
            store: store.with_current(shown.swap_down()),
            layout,
            reaction: refresh_if(shown.active_window is Some),
        },
        ActionTag::SwapUp => Step {
            store: store.with_current(shown.swap_up()),
            layout,
            reaction: refresh_if(shown.active_window is Some),
        },
        ActionTag::ToggleTag => Step {
            store: store.switched_to(store.previous),
            layout,
            reaction: ReactionView::Refresh,
        },
        ActionTag::FocusNextScreen | ActionTag::FocusPreviousScreen | ActionTag::NextLayout
        | ActionTag::PreviousLayout => Step { store, layout, reaction: ReactionView::Forward(tag) },
        ActionTag::IncMain => Step {
            store,
            layout: layout.spec_inc_main(),
            reaction: ReactionView::Refresh,
        },
        ActionTag::DecMain => Step {
            store,
            layout: layout.spec_dec_main(),
            reaction: ReactionView::Refresh,
        },
        ActionTag::ExpandMain => Step {
            store,
            layout: layout.spec_expand_main(),
            reaction: ReactionView::Refresh,
        },
        ActionTag::ShrinkMain => Step {
            store,
            layout: layout.spec_shrink_main(),
            reaction: ReactionView::Refresh,
        },
        ActionTag::ToggleFullScreen => Step {
            store: store.with_current(shown.toggle_fullscreen()),
            layout,
            reaction: refresh_if(shown.active_window is Some),
        },
        ActionTag::FloatFocused => Step {
            store: store.with_current(shown.toggle_floating()),
            layout,
            reaction: refresh_if(shown.active_window is Some),
        },
        ActionTag::Exit => Step { store, layout, reaction: ReactionView::Exit },
        ActionTag::FocusWorkspace(target) => Step {
            store: store.set_active(target as int),
            layout,
            reaction: refresh_if(store.has_workspace(target as int)),
        },
        ActionTag::MoveFocusedTo(target) => Step {
            store: store.move_focused(target as int),
            layout,
            reaction: refresh_if(store.can_move_focused(target as int)),
        },
    }
}

/// What an effect does: an operation does what [`step_action`] says, a
/// command leaves the state alone and asks for the program to be started.
pub open spec fn step_effect(effect: EffectView, store: StoreView, layout: LayoutSpec) -> Step {
    match effect {
        EffectView::NamedAction(tag) => step_action(tag, store, layout),
        EffectView::SpawnCommand(command) => Step {
            store,
            layout,
            reaction: ReactionView::Spawn(command),
        },
    }
}

/// `Reaction::Refresh` where `changed`, else `Reaction::Nothing`.
fn refresh_when(changed: bool) -> (r: Reaction)
    ensures
        r@ == refresh_if(changed),
{
    if changed {
        Reaction::Refresh
    } else {
        Reaction::Nothing
    }
}

/// Carries out an operation on the store and the layout.
pub fn apply(tag: ActionTag, store: &mut Workspaces, layout: &mut LayoutSpec) -> (reaction:
    Reaction)
    requires
        old(store).wf(),
    ensures
        final(store).wf(),
        final(store)@ == step_action(tag, old(store)@, *old(layout)).store,
        *final(layout) == step_action(tag, old(store)@, *old(layout)).layout,
        reaction@ == step_action(tag, old(store)@, *old(layout)).reaction,
{
    let shown = store.active();
    match tag {
        ActionTag::Kill => match store.kill_focused() {
            Some(h) => Reaction::Close(h),
            None => Reaction::Nothing,
        },
        ActionTag::FocusNext => {
            let occupied = store.active_window_count() > 0;
            store.focus_next();
            refresh_when(occupied)
        },
        ActionTag::FocusPrevious => {
            let occupied = store.active_window_count() > 0;
            store.focus_previous();
            refresh_when(occupied)
        },
        ActionTag::SwapDown => {
            let focused = store.active_window(shown).is_some();
            store.swap_down();
            refresh_when(focused)
        },
        ActionTag::SwapUp => {
            let focused = store.active_window(shown).is_some();
            store.swap_up();
            refresh_when(focused)
        },
        ActionTag::ToggleTag => {
            store.toggle_tag();
            Reaction::Refresh
        },
        ActionTag::FocusNextScreen => Reaction::Forward(tag),
        ActionTag::FocusPreviousScreen => Reaction::Forward(tag),
        ActionTag::NextLayout => Reaction::Forward(tag),
        ActionTag::PreviousLayout => Reaction::Forward(tag),
        ActionTag::IncMain => {
            layout.inc_main();
            Reaction::Refresh
        },
        ActionTag::DecMain => {
            layout.dec_main();
            Reaction::Refresh
        },
        ActionTag::ExpandMain => {
            layout.expand_main();
            Reaction::Refresh
        },
        ActionTag::ShrinkMain => {
            layout.shrink_main();
            Reaction::Refresh
        },
        ActionTag::ToggleFullScreen => {
            let focused = store.active_window(shown).is_some();
            store.toggle_fullscreen();
            refresh_when(focused)
        },
        ActionTag::FloatFocused => {
            let focused = store.active_window(shown).is_some();
            store.toggle_floating();
            refresh_when(focused)
        },
        ActionTag::Exit => Reaction::Exit,
        ActionTag::FocusWorkspace(target) => {
            let switched = store.set_active(target);
            refresh_when(switched)
        },
        ActionTag::MoveFocusedTo(target) => {
            let moved = store.move_window(target);
            refresh_when(moved)
        },
    }
}

/// Carries out what a key is bound to.
pub fn perform(effect: &Effect, store: &mut Workspaces, layout: &mut LayoutSpec) -> (reaction:
    Reaction)
    requires
        old(store).wf(),
    ensures
        final(store).wf(),
        final(store)@ == step_effect(effect@, old(store)@, *old(layout)).store,
        *final(layout) == step_effect(effect@, old(store)@, *old(layout)).layout,
        reaction@ == step_effect(effect@, old(store)@, *old(layout)).reaction,
{
    match effect {
        Effect::NamedAction(tag) => apply(*tag, store, layout),
        Effect::SpawnCommand(command) => Reaction::Spawn(command.clone()),
    }
}

} // verus!
