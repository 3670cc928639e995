//! The events of a compositor session and what each of them leads to.
//!
//! The display server reports key presses, pointer events and the coming
//! and going of windows. [`react`] is the whole decision: it changes the
//! store and the layout and says what is left for the server to do.

use vstd::prelude::*;
use crate::actions::perform;
use crate::actions::step_effect;
use crate::actions::ActionTag;
use crate::actions::Effect;
use crate::actions::EffectView;
use crate::actions::Reaction;
use crate::actions::ReactionView;
use crate::actions::Step;
use crate::layout_spec::LayoutSpec;
use crate::window::WindowHandle;
use crate::workspace::StoreView;
use crate::workspace::Workspaces;

verus! {

/// The keysym of the digit `1`.
pub const KEYSYM_1: u32 = 0x0031;

/// The keysym of the digit `9`.
pub const KEYSYM_9: u32 = 0x0039;

/// The keysym of the capital letter `T`.
pub const KEYSYM_UPPER_T: u32 = 0x0054;

/// The keysym of the small letter `t`.
pub const KEYSYM_LOWER_T: u32 = 0x0074;

/// The program the launcher key starts.
pub open spec fn launcher_program() -> Seq<char> {
    "firefox-dev"@
}

/// What a key press asks of the compositor.
#[derive(PartialEq)]
pub enum Action {
    WorkspaceSetActive(usize),
    WindowSetWorkspace(usize),
    Spawn(String),
}

/// An [`Action`] with its text laid open.
pub enum ActionView {
    WorkspaceSetActive(usize),
    WindowSetWorkspace(usize),
    Spawn(Seq<char>),
}

impl View for Action {
    type V = ActionView;

    open spec fn view(&self) -> ActionView {
        match self {
            Action::WorkspaceSetActive(workspace) => ActionView::WorkspaceSetActive(*workspace),
            Action::WindowSetWorkspace(workspace) => ActionView::WindowSetWorkspace(*workspace),
            Action::Spawn(program) => ActionView::Spawn(program@),
        }
    }
}

/// The effect an action stands for.
pub open spec fn effect_of(action: ActionView) -> EffectView {
    match action {
        ActionView::WorkspaceSetActive(workspace) => EffectView::NamedAction(
            ActionTag::FocusWorkspace(workspace),
        ),
        ActionView::WindowSetWorkspace(workspace) => EffectView::NamedAction(
            ActionTag::MoveFocusedTo(workspace),
        ),
        ActionView::Spawn(program) => EffectView::SpawnCommand(program),
    }
}

impl Action {
    /// The effect this action stands for.
    pub fn effect(&self) -> (e: Effect)
        ensures
            e@ == effect_of(self@),
    {
        match self {
            Action::WorkspaceSetActive(workspace) => Effect::NamedAction(
                ActionTag::FocusWorkspace(*workspace),
            ),
            Action::WindowSetWorkspace(workspace) => Effect::NamedAction(
                ActionTag::MoveFocusedTo(*workspace),
            ),
            Action::Spawn(program) => Effect::SpawnCommand(program.clone()),
        }
    }
}

/// The keysym of the launcher key: the keysyms of the two letters `t`,
/// or-ed bit by bit.
pub open spec fn launcher_keysym() -> u32 {
    KEYSYM_LOWER_T | KEYSYM_UPPER_T
}

/// The or of the two keysyms is the keysym of the small letter, so the
/// launcher key is `t` and not `T`.
pub proof fn lemma_launcher_is_lower_t()
    ensures
        launcher_keysym() == KEYSYM_LOWER_T,
        launcher_keysym() != KEYSYM_UPPER_T,
{
    assert(0x0074u32 | 0x0054u32 == 0x0074u32) by (bit_vector);
}

/// What a key event is bound to in a compositor session. Only presses
/// count. The launcher key starts the launcher program, whatever modifiers
/// are held. A digit from `1` to `9` with the logo key held moves the
/// focused window to the workspace of that digit; with alt held and the
/// logo key not, it shows that workspace. Every other key is not ours.
pub open spec fn key_action(pressed: bool, keysym: u32, alt: bool, logo: bool) -> Option<
    ActionView,
> {
    if pressed && keysym == launcher_keysym() {
        Some(ActionView::Spawn(launcher_program()))
    } else if pressed && (alt || logo) && KEYSYM_1 <= keysym <= KEYSYM_9 {
        if logo {
            Some(ActionView::WindowSetWorkspace((keysym - KEYSYM_1) as usize))
        } else {
            Some(ActionView::WorkspaceSetActive((keysym - KEYSYM_1) as usize))
        }
    } else {
        None
    }
}

/// The action of a key event, or `None` for a key that is to be passed on
/// to the focused window.
pub fn filter_key(pressed: bool, keysym: u32, alt: bool, logo: bool) -> (r: Option<Action>)
    ensures
        match r {
            Some(action) => key_action(pressed, keysym, alt, logo) == Some(action@),
            None => key_action(pressed, keysym, alt, logo) is None,
        },
{
    if pressed && keysym == KEYSYM_LOWER_T | KEYSYM_UPPER_T {
        return Some(Action::Spawn(String::from_str("firefox-dev")));
    }
    if pressed && (alt || logo) && KEYSYM_1 <= keysym && keysym <= KEYSYM_9 {
        let workspace = (keysym - KEYSYM_1) as usize;
        return if logo {
            Some(Action::WindowSetWorkspace(workspace))
        } else {
            Some(Action::WorkspaceSetActive(workspace))
        };
    }
    None
}

/// What the display server reports.
#[derive(Clone, Copy, Debug, PartialEq, Eq, Structural)]
pub enum Event {
    /// A key went down or up, with these modifiers held.
    Key { pressed: bool, keysym: u32, alt: bool, logo: bool },
    /// A client opened a window.
    WindowCreated(WindowHandle),
    /// A window is gone.
    WindowDestroyed(WindowHandle),
    /// The pointer moved; this window, if any, is under it.
    PointerMotion(Option<WindowHandle>),
    /// A pointer button went down or up; this window, if any, is under the
    /// pointer.
    PointerButton { pressed: bool, under: Option<WindowHandle> },
}

/// What an event does to the store and the layout, and what it leaves to
/// do.
pub open spec fn step_event(event: Event, store: StoreView, layout: LayoutSpec) -> Step {
    match event {
        Event::Key { pressed, keysym, alt, logo } => match key_action(pressed, keysym, alt, logo) {
            Some(action) => step_effect(effect_of(action), store, layout),
            None => Step { store, layout, reaction: ReactionView::PassOn },
        },
        Event::WindowCreated(window) => Step {
            store: store.insert(store.active, window),
            layout,
            reaction: ReactionView::Refresh,
        },
        Event::WindowDestroyed(window) => Step {
            store: store.detach(window),
            layout,
            reaction: ReactionView::Refresh,
        },
        Event::PointerMotion(under) => match under {
            Some(window) => Step {
                store: store.with_focus_on(window),
                layout,
                reaction: ReactionView::Nothing,
            },
            None => Step { store, layout, reaction: ReactionView::Nothing },
        },
        Event::PointerButton { pressed, under } => Step {
            store,
            layout,
            reaction: if !pressed {
                ReactionView::Nothing
            } else {
                match under {
                    Some(window) => ReactionView::Raise(window),
                    None => ReactionView::ClearFocus,
                }
            },
        },
    }
}

/// Takes one event: changes the store and the layout as the event asks,
/// and returns what the display server has to do about it.
pub fn react(event: Event, store: &mut Workspaces, layout: &mut LayoutSpec) -> (reaction: Reaction)
    requires
        old(store).wf(),
    ensures
        final(store).wf(),
        final(store)@ == step_event(event, old(store)@, *old(layout)).store,
        *final(layout) == step_event(event, old(store)@, *old(layout)).layout,
        reaction@ == step_event(event, old(store)@, *old(layout)).reaction,
{
    match event {
        Event::Key { pressed, keysym, alt, logo } => match filter_key(pressed, keysym, alt, logo) {
            Some(action) => {
                let effect = action.effect();
                perform(&effect, store, layout)
            },
            None => Reaction::PassOn,
        },
        Event::WindowCreated(window) => {
            let shown = store.active();
            let _ = store.insert_window(shown, window);
            Reaction::Refresh
        },
        Event::WindowDestroyed(window) => {
            let _ = store.remove_window(window);
            Reaction::Refresh
        },
        Event::PointerMotion(under) => {
            match under {
                Some(window) => {
                    store.set_active_window(window);
                },
                None => {},
            }
            Reaction::Nothing
        },
        Event::PointerButton { pressed, under } => {
            if !pressed {
                Reaction::Nothing
            } else {
                match under {
                    Some(window) => Reaction::Raise(window),
                    None => Reaction::ClearFocus,
                }
            }
        },
    }
}

} // verus!
