use sswm::actions::{apply, match_actions, perform, ActionTag, Effect, Reaction};
use sswm::bindings::BindingTable;
use sswm::dispatch::KeyCode;
use sswm::layout_spec::{LayoutSpec, RATIO_MAX, RATIO_MIN};
use sswm::window::{ManagedWindow, WindowHandle};
use sswm::workspace::Workspaces;

fn h(id: u64) -> WindowHandle {
    WindowHandle(id)
}

fn layout() -> LayoutSpec {
    LayoutSpec::new(1, 600, 100, 5, 5, 0)
}

fn store_with(ids: &[u64]) -> Workspaces {
    let mut store = Workspaces::new();
    for id in ids {
        store.insert_window(0, h(*id)).unwrap();
    }
    store
}

#[test]
fn every_name_of_the_vocabulary_is_known() {
    let names = [
        ("kill", ActionTag::Kill),
        ("focusnext", ActionTag::FocusNext),
        ("focusprevious", ActionTag::FocusPrevious),
        ("swapdown", ActionTag::SwapDown),
        ("swapup", ActionTag::SwapUp),
        ("toggletag", ActionTag::ToggleTag),
        ("focusnextscreen", ActionTag::FocusNextScreen),
        ("focuspreviousscreen", ActionTag::FocusPreviousScreen),
        ("nextlayout", ActionTag::NextLayout),
        ("previouslayout", ActionTag::PreviousLayout),
        ("incmain", ActionTag::IncMain),
        ("decmain", ActionTag::DecMain),
        ("expandmain", ActionTag::ExpandMain),
        ("shrinkmain", ActionTag::ShrinkMain),
        ("togglefullscreen", ActionTag::ToggleFullScreen),
        ("floatfocused", ActionTag::FloatFocused),
        ("exit", ActionTag::Exit),
    ];
    for (name, tag) in names {
        assert_eq!(ActionTag::from_name(name), Some(tag));
        assert_eq!(match_actions(name), Some(tag));
        assert_eq!(match_actions(&name.to_uppercase()), Some(tag));
    }
}

#[test]
fn match_actions_ignores_case() {
    assert_eq!(match_actions("kiLL"), Some(ActionTag::Kill));
    assert_eq!(match_actions("eXit"), Some(ActionTag::Exit));
    assert_eq!(match_actions("FocusNextScreen"), Some(ActionTag::FocusNextScreen));
}

#[test]
fn from_name_knows_lower_case_only() {
    assert_eq!(ActionTag::from_name("kiLL"), None);
    assert_eq!(ActionTag::from_name("Kill"), None);
    assert_eq!(ActionTag::from_name("kill"), Some(ActionTag::Kill));
}

#[test]
fn unknown_names_stand_for_nothing() {
    for name in ["", "focusdown", "kill ", " kill", "focus_next", "spawn", "focusworkspace", "1"] {
        assert_eq!(match_actions(name), None, "{name:?}");
    }
}

#[test]
fn inc_and_dec_main_stop_at_the_ends() {
    let mut l = LayoutSpec::new(0, 600, 100, 0, 0, 0);
    l.dec_main();
    assert_eq!(l.max_main, 0);
    l.inc_main();
    l.inc_main();
    assert_eq!(l.max_main, 2);
    l.dec_main();
    assert_eq!(l.max_main, 1);
    let mut top = LayoutSpec::new(u32::MAX, 600, 100, 0, 0, 0);
    top.inc_main();
    assert_eq!(top.max_main, u32::MAX);
}

#[test]
fn expand_main_never_passes_the_upper_bound() {
    let mut l = layout();
    let mut seen = vec![];
    for _ in 0..25 {
        l.expand_main();
        assert!(l.ratio <= RATIO_MAX);
        seen.push(l.ratio);
    }
    assert_eq!(seen[..5], [700, 800, 900, 950, 950]);
    assert_eq!(l.ratio, RATIO_MAX);
}

#[test]
fn shrink_main_never_passes_the_lower_bound() {
    let mut l = layout();
    let mut seen = vec![];
    for _ in 0..25 {
        l.shrink_main();
        assert!(l.ratio >= RATIO_MIN);
        seen.push(l.ratio);
    }
    assert_eq!(seen[..7], [500, 400, 300, 200, 100, 50, 50]);
    assert_eq!(l.ratio, RATIO_MIN);
}

#[test]
fn a_huge_step_cannot_overflow_the_ratio() {
    let mut l = LayoutSpec::new(1, 600, u32::MAX, 0, 0, 0);
    l.expand_main();
    assert_eq!(l.ratio, 950);
    l.shrink_main();
    assert_eq!(l.ratio, 50);
}

#[test]
fn a_zero_step_leaves_the_ratio() {
    let mut l = LayoutSpec::new(1, 600, 0, 0, 0, 0);
    l.expand_main();
    l.shrink_main();
    assert_eq!(l.ratio, 600);
}

#[test]
fn new_layout_clamps_the_ratio() {
    assert_eq!(LayoutSpec::new(1, 0, 100, 0, 0, 0).ratio, 50);
    assert_eq!(LayoutSpec::new(1, 1000, 100, 0, 0, 0).ratio, 950);
    assert_eq!(LayoutSpec::new(1, 950, 100, 0, 0, 0).ratio, 950);
    assert_eq!(LayoutSpec::new(1, 50, 100, 0, 0, 0).ratio, 50);
    assert_eq!(
        LayoutSpec::new(2, 333, 7, 1, 2, 3),
        LayoutSpec { max_main: 2, ratio: 333, ratio_step: 7, outer_gap: 1, inner_gap: 2, top_reserved: 3 }
    );
}

#[test]
fn a_ratio_set_out_of_bounds_comes_back_with_the_next_action() {
    let mut l = layout();
    l.ratio = 5000;
    l.shrink_main();
    assert_eq!(l.ratio, 950);
    l.ratio = 10;
    l.expand_main();
    assert_eq!(l.ratio, 110);
    l.ratio = 10;
    l.shrink_main();
    assert_eq!(l.ratio, 50);
}

#[test]
fn actions_on_an_empty_workspace_do_nothing() {
    let mut store = Workspaces::new();
    let mut l = layout();
    for tag in [
        ActionTag::Kill,
        ActionTag::FocusNext,
        ActionTag::FocusPrevious,
        ActionTag::SwapDown,
        ActionTag::SwapUp,
        ActionTag::ToggleFullScreen,
        ActionTag::FloatFocused,
        ActionTag::MoveFocusedTo(2),
    ] {
        assert_eq!(apply(tag, &mut store, &mut l), Reaction::Nothing, "{tag:?}");
        assert!(store.windows(0).is_empty());
        assert!(store.windows(2).is_empty());
        assert_eq!(store.active_window(0), None);
        assert_eq!((store.active(), store.previous()), (0, 0));
        assert_eq!(l, layout());
    }
}

#[test]
fn move_focused_without_focus_leaves_the_store_alone() {
    let mut store = store_with(&[1, 2]);
    store.insert_window(2, h(3)).unwrap();
    let mut l = layout();
    assert_eq!(apply(ActionTag::MoveFocusedTo(2), &mut store, &mut l), Reaction::Nothing);
    assert_eq!(store.windows(0), vec![h(1), h(2)]);
    assert_eq!(store.windows(2), vec![h(3)]);
    assert_eq!((store.active(), store.previous()), (0, 0));
    for w in 0..9 {
        assert_eq!(store.active_window(w), None);
    }
}

#[test]
fn move_focused_moves_and_asks_for_a_refresh() {
    let mut store = store_with(&[1, 2]);
    store.set_active_window(h(2));
    let mut l = layout();
    assert_eq!(apply(ActionTag::MoveFocusedTo(2), &mut store, &mut l), Reaction::Refresh);
    assert_eq!(store.windows(0), vec![h(1)]);
    assert_eq!(store.windows(2), vec![h(2)]);
    assert_eq!(apply(ActionTag::MoveFocusedTo(9), &mut store, &mut l), Reaction::Nothing);
    assert_eq!(store.windows(0), vec![h(1)]);
}

#[test]
fn focus_workspace_switches_and_asks_for_a_refresh() {
    let mut store = Workspaces::new();
    let mut l = layout();
    assert_eq!(apply(ActionTag::FocusWorkspace(3), &mut store, &mut l), Reaction::Refresh);
    assert_eq!((store.active(), store.previous()), (3, 0));
    assert_eq!(apply(ActionTag::FocusWorkspace(9), &mut store, &mut l), Reaction::Nothing);
    assert_eq!((store.active(), store.previous()), (3, 0));
    assert_eq!(apply(ActionTag::ToggleTag, &mut store, &mut l), Reaction::Refresh);
    assert_eq!((store.active(), store.previous()), (0, 3));
}

#[test]
fn kill_closes_the_focused_window() {
    let mut store = store_with(&[1, 2]);
    store.set_active_window(h(1));
    let mut l = layout();
    assert_eq!(apply(ActionTag::Kill, &mut store, &mut l), Reaction::Close(h(1)));
    assert_eq!(store.windows(0), vec![h(2)]);
    assert!(!store.contains(h(1)));
}

#[test]
fn focus_and_swap_actions_change_the_shown_workspace() {
    let mut store = store_with(&[1, 2, 3]);
    let mut l = layout();
    assert_eq!(apply(ActionTag::SwapDown, &mut store, &mut l), Reaction::Nothing);
    assert_eq!(apply(ActionTag::FocusNext, &mut store, &mut l), Reaction::Refresh);
    assert_eq!(store.active_window(0).map(|w| w.handle), Some(h(1)));
    assert_eq!(apply(ActionTag::FocusPrevious, &mut store, &mut l), Reaction::Refresh);
    assert_eq!(store.active_window(0).map(|w| w.handle), Some(h(3)));
    assert_eq!(apply(ActionTag::SwapUp, &mut store, &mut l), Reaction::Refresh);
    assert_eq!(store.windows(0), vec![h(1), h(3), h(2)]);
    assert_eq!(apply(ActionTag::SwapDown, &mut store, &mut l), Reaction::Refresh);
    assert_eq!(store.windows(0), vec![h(1), h(2), h(3)]);
}

#[test]
fn flag_actions_flip_the_flags_of_the_focused_window() {
    let mut store = store_with(&[1]);
    store.set_active_window(h(1));
    let mut l = layout();
    assert_eq!(apply(ActionTag::ToggleFullScreen, &mut store, &mut l), Reaction::Refresh);
    assert_eq!(store.active_window(0), Some(ManagedWindow { handle: h(1), floating: false, fullscreen: true }));
    assert_eq!(apply(ActionTag::FloatFocused, &mut store, &mut l), Reaction::Refresh);
    assert_eq!(store.active_window(0), Some(ManagedWindow { handle: h(1), floating: true, fullscreen: true }));
    assert_eq!(apply(ActionTag::ToggleFullScreen, &mut store, &mut l), Reaction::Refresh);
    assert_eq!(store.active_window(0), Some(ManagedWindow { handle: h(1), floating: true, fullscreen: false }));
    assert!(store.tiled_windows(0).is_empty());
}

#[test]
fn layout_actions_change_the_layout_only() {
    let mut store = store_with(&[1, 2]);
    let mut l = layout();
    assert_eq!(apply(ActionTag::IncMain, &mut store, &mut l), Reaction::Refresh);
    assert_eq!(l.max_main, 2);
    assert_eq!(apply(ActionTag::DecMain, &mut store, &mut l), Reaction::Refresh);
    assert_eq!(apply(ActionTag::DecMain, &mut store, &mut l), Reaction::Refresh);
    assert_eq!(apply(ActionTag::DecMain, &mut store, &mut l), Reaction::Refresh);
    assert_eq!(l.max_main, 0);
    assert_eq!(apply(ActionTag::ExpandMain, &mut store, &mut l), Reaction::Refresh);
    assert_eq!(l.ratio, 700);
    assert_eq!(apply(ActionTag::ShrinkMain, &mut store, &mut l), Reaction::Refresh);
    assert_eq!(apply(ActionTag::ShrinkMain, &mut store, &mut l), Reaction::Refresh);
    assert_eq!(l.ratio, 500);
    assert_eq!(store.windows(0), vec![h(1), h(2)]);
}

#[test]
fn screen_and_layout_cycling_is_forwarded() {
    let mut store = store_with(&[1]);
    let mut l = layout();
    for tag in [
        ActionTag::FocusNextScreen,
        ActionTag::FocusPreviousScreen,
        ActionTag::NextLayout,
        ActionTag::PreviousLayout,
    ] {
        assert_eq!(apply(tag, &mut store, &mut l), Reaction::Forward(tag));
    }
    assert_eq!(apply(ActionTag::Exit, &mut store, &mut l), Reaction::Exit);
    assert_eq!(store.windows(0), vec![h(1)]);
    assert_eq!(l, layout());
}

#[test]
fn spawn_leaves_the_state_alone() {
    let mut store = store_with(&[1]);
    store.set_active_window(h(1));
    let mut l = layout();
    let reaction = perform(&Effect::SpawnCommand("alacritty".to_string()), &mut store, &mut l);
    assert_eq!(reaction, Reaction::Spawn("alacritty".to_string()));
    assert_eq!(store.windows(0), vec![h(1)]);
    assert_eq!(l, layout());
    assert_eq!(perform(&Effect::NamedAction(ActionTag::Kill), &mut store, &mut l), Reaction::Close(h(1)));
}

#[test]
fn effects_can_be_duplicated() {
    let e = Effect::SpawnCommand("vim".to_string());
    assert_eq!(e.duplicate(), e);
    let e = Effect::NamedAction(ActionTag::MoveFocusedTo(4));
    assert_eq!(e.duplicate(), e);
}

#[test]
fn key_events_go_through_the_dispatch_table() {
    let mut table = BindingTable::new();
    table.bind("M-q".to_string(), Effect::NamedAction(ActionTag::Kill));
    table.bind("M-Return".to_string(), Effect::SpawnCommand("kitty".to_string()));
    let q = KeyCode { mask: 64, code: 24 };
    let ret = KeyCode { mask: 64, code: 36 };
    let dispatch = table.with_key_codes(&vec![Some(q), Some(ret)]).unwrap();
    let mut store = store_with(&[1]);
    store.set_active_window(h(1));
    let mut l = layout();
    assert_eq!(dispatch.on_key_event(ret, &mut store, &mut l), Reaction::Spawn("kitty".to_string()));
    assert_eq!(dispatch.on_key_event(KeyCode { mask: 0, code: 24 }, &mut store, &mut l), Reaction::PassOn);
    assert_eq!(store.windows(0), vec![h(1)]);
    assert_eq!(dispatch.on_key_event(q, &mut store, &mut l), Reaction::Close(h(1)));
    assert!(store.windows(0).is_empty());
    assert_eq!(dispatch.on_key_event(q, &mut store, &mut l), Reaction::Nothing);
}
