use sswm::actions::{ActionTag, Effect, Reaction};
use sswm::input::{
    filter_key, react, Action, Event, KEYSYM_1, KEYSYM_9, KEYSYM_LOWER_T, KEYSYM_UPPER_T,
};
use sswm::layout_spec::LayoutSpec;
use sswm::window::WindowHandle;
use sswm::workspace::Workspaces;

fn h(id: u64) -> WindowHandle {
    WindowHandle(id)
}

fn layout() -> LayoutSpec {
    LayoutSpec::new(1, 600, 100, 5, 5, 0)
}

fn key(keysym: u32, alt: bool, logo: bool) -> Event {
    Event::Key { pressed: true, keysym, alt, logo }
}

#[test]
fn keysyms_have_their_codes() {
    assert_eq!(KEYSYM_1, 0x31);
    assert_eq!(KEYSYM_9, 0x39);
    assert_eq!(KEYSYM_UPPER_T, 0x54);
    assert_eq!(KEYSYM_LOWER_T, 0x74);
}

#[test]
fn the_launcher_key_is_small_t() {
    assert!(filter_key(true, KEYSYM_LOWER_T, false, false) == Some(Action::Spawn("firefox-dev".to_string())));
    assert!(filter_key(true, KEYSYM_LOWER_T, true, true) == Some(Action::Spawn("firefox-dev".to_string())));
    assert!(filter_key(true, KEYSYM_UPPER_T, false, false).is_none());
    assert!(filter_key(false, KEYSYM_LOWER_T, false, false).is_none());
}

#[test]
fn digits_with_alt_show_a_workspace() {
    for d in 0..9u32 {
        assert!(filter_key(true, KEYSYM_1 + d, true, false) == Some(Action::WorkspaceSetActive(d as usize)));
    }
}

#[test]
fn digits_with_logo_move_the_focused_window() {
    for d in 0..9u32 {
        assert!(filter_key(true, KEYSYM_1 + d, false, true) == Some(Action::WindowSetWorkspace(d as usize)));
        assert!(filter_key(true, KEYSYM_1 + d, true, true) == Some(Action::WindowSetWorkspace(d as usize)));
    }
}

#[test]
fn other_keys_are_passed_on() {
    assert!(filter_key(true, KEYSYM_1, false, false).is_none());
    assert!(filter_key(false, KEYSYM_1, true, false).is_none());
    assert!(filter_key(true, 0x30, true, false).is_none());
    assert!(filter_key(true, 0x3a, false, true).is_none());
    assert!(filter_key(true, 0x61, true, true).is_none());
    assert!(filter_key(true, u32::MAX, true, true).is_none());
}

#[test]
fn actions_stand_for_effects() {
    assert_eq!(Action::WorkspaceSetActive(4).effect(), Effect::NamedAction(ActionTag::FocusWorkspace(4)));
    assert_eq!(Action::WindowSetWorkspace(7).effect(), Effect::NamedAction(ActionTag::MoveFocusedTo(7)));
    assert_eq!(Action::Spawn("xterm".to_string()).effect(), Effect::SpawnCommand("xterm".to_string()));
}

#[test]
fn a_created_window_joins_the_shown_workspace() {
    let mut store = Workspaces::new();
    let mut l = layout();
    store.set_active(2);
    assert_eq!(react(Event::WindowCreated(h(1)), &mut store, &mut l), Reaction::Refresh);
    assert_eq!(react(Event::WindowCreated(h(2)), &mut store, &mut l), Reaction::Refresh);
    assert_eq!(store.windows(2), vec![h(1), h(2)]);
    assert!(store.windows(0).is_empty());
}

#[test]
fn a_destroyed_window_leaves_the_store() {
    let mut store = Workspaces::new();
    let mut l = layout();
    store.insert_window(5, h(1)).unwrap();
    assert_eq!(react(Event::WindowDestroyed(h(1)), &mut store, &mut l), Reaction::Refresh);
    assert!(!store.contains(h(1)));
    // a second notice for the same window is harmless
    assert_eq!(react(Event::WindowDestroyed(h(1)), &mut store, &mut l), Reaction::Refresh);
    assert!(store.windows(5).is_empty());
}

#[test]
fn the_pointer_carries_the_focus() {
    let mut store = Workspaces::new();
    let mut l = layout();
    store.insert_window(0, h(1)).unwrap();
    store.insert_window(0, h(2)).unwrap();
    assert_eq!(react(Event::PointerMotion(Some(h(2))), &mut store, &mut l), Reaction::Nothing);
    assert_eq!(store.active_window(0).map(|w| w.handle), Some(h(2)));
    assert_eq!(react(Event::PointerMotion(None), &mut store, &mut l), Reaction::Nothing);
    assert_eq!(react(Event::PointerMotion(Some(h(9))), &mut store, &mut l), Reaction::Nothing);
    assert_eq!(store.active_window(0).map(|w| w.handle), Some(h(2)));
}

#[test]
fn a_click_raises_or_clears() {
    let mut store = Workspaces::new();
    let mut l = layout();
    store.insert_window(0, h(1)).unwrap();
    let press = Event::PointerButton { pressed: true, under: Some(h(1)) };
    assert_eq!(react(press, &mut store, &mut l), Reaction::Raise(h(1)));
    let miss = Event::PointerButton { pressed: true, under: None };
    assert_eq!(react(miss, &mut store, &mut l), Reaction::ClearFocus);
    let release = Event::PointerButton { pressed: false, under: Some(h(1)) };
    assert_eq!(react(release, &mut store, &mut l), Reaction::Nothing);
    assert_eq!(store.windows(0), vec![h(1)]);
    assert_eq!(store.active_window(0), None);
}

#[test]
fn key_events_switch_and_move() {
    let mut store = Workspaces::new();
    let mut l = layout();
    react(Event::WindowCreated(h(1)), &mut store, &mut l);
    react(Event::WindowCreated(h(2)), &mut store, &mut l);
    react(Event::PointerMotion(Some(h(1))), &mut store, &mut l);
    assert_eq!(react(key(KEYSYM_1 + 2, false, true), &mut store, &mut l), Reaction::Refresh);
    assert_eq!(store.windows(0), vec![h(2)]);
    assert_eq!(store.windows(2), vec![h(1)]);
    assert_eq!(react(key(KEYSYM_1 + 2, true, false), &mut store, &mut l), Reaction::Refresh);
    assert_eq!((store.active(), store.previous()), (2, 0));
    assert_eq!(react(key(KEYSYM_LOWER_T, false, false), &mut store, &mut l), Reaction::Spawn("firefox-dev".to_string()));
    assert_eq!(react(key(0x61, false, false), &mut store, &mut l), Reaction::PassOn);
    let up = Event::Key { pressed: false, keysym: KEYSYM_1, alt: true, logo: false };
    assert_eq!(react(up, &mut store, &mut l), Reaction::PassOn);
}

#[test]
fn moving_without_focus_does_nothing() {
    let mut store = Workspaces::new();
    let mut l = layout();
    react(Event::WindowCreated(h(1)), &mut store, &mut l);
    assert_eq!(react(key(KEYSYM_1 + 1, false, true), &mut store, &mut l), Reaction::Nothing);
    assert_eq!(store.windows(0), vec![h(1)]);
    assert!(store.windows(1).is_empty());
}
