use sswm::actions::{ActionTag, Effect};
use sswm::bindings::{
    handle_config, raw_key_bindings, resolve, BindingEntry, BindingSpec, BindingTable, LayerEntry,
    TAG_COUNT,
};
use sswm::dispatch::{KeyCode, KeyError};
use sswm::config::{Action, Command, Config};

fn cmd(key: &str, command: &str) -> LayerEntry {
    LayerEntry { key_combo: key.to_string(), spec: BindingSpec::Command(command.to_string()) }
}

fn act(key: &str, name: &str) -> LayerEntry {
    LayerEntry { key_combo: key.to_string(), spec: BindingSpec::ActionName(name.to_string()) }
}

fn spawn(command: &str) -> Effect {
    Effect::SpawnCommand(command.to_string())
}

fn named(tag: ActionTag) -> Effect {
    Effect::NamedAction(tag)
}

fn keys(table: &BindingTable) -> Vec<String> {
    table.key_combos()
}

fn empty_config() -> Config {
    Config {
        max_main: 1,
        ratio: 600,
        ratio_step: 100,
        outer_gaps: 0,
        inner_gaps: 0,
        top_gaps: 0,
        commands: vec![],
        actions: vec![],
        xcommands: vec![],
        xactions: vec![],
        wcommands: vec![],
        wactions: vec![],
    }
}

#[test]
fn user_command_replaces_default_action() {
    let defaults = vec![act("M-j", "focusdown")];
    let layers = vec![vec![cmd("M-j", "firefox")]];
    let table = resolve(&defaults, &layers);
    assert_eq!(table.lookup("M-j"), Some(&spawn("firefox")));
}

#[test]
fn user_command_replaces_known_default_action() {
    let defaults = vec![act("M-j", "focusnext")];
    let table = resolve(&defaults, &vec![]);
    assert_eq!(table.lookup("M-j"), Some(&named(ActionTag::FocusNext)));
    let table = resolve(&defaults, &vec![vec![cmd("M-j", "firefox")]]);
    assert_eq!(table.lookup("M-j"), Some(&spawn("firefox")));
}

#[test]
fn higher_layer_wins() {
    let lower = vec![cmd("M-j", "xterm"), act("M-k", "kill")];
    let higher = vec![act("M-j", "SwapUp"), cmd("M-k", "vim")];
    let table = resolve(&vec![], &vec![lower, higher]);
    assert_eq!(table.lookup("M-j"), Some(&named(ActionTag::SwapUp)));
    assert_eq!(table.lookup("M-k"), Some(&spawn("vim")));
}

#[test]
fn later_entry_of_one_layer_wins() {
    let layer = vec![act("M-S-Up", "IncMain"), act("M-S-Up", "ShrinkMain")];
    let table = resolve(&vec![], &vec![layer]);
    assert_eq!(table.lookup("M-S-Up"), Some(&named(ActionTag::ShrinkMain)));
    assert_eq!(table.len(), 1 + 2 * TAG_COUNT);
}

#[test]
fn unknown_action_names_are_dropped() {
    let table = resolve(&vec![], &vec![vec![act("M-z", "teleport"), act("M-y", "")]]);
    assert_eq!(table.lookup("M-z"), None);
    assert_eq!(table.lookup("M-y"), None);
    assert_eq!(table.len(), 2 * TAG_COUNT);
}

#[test]
fn unknown_action_name_does_not_unbind_a_lower_layer() {
    let lower = vec![cmd("M-j", "xterm")];
    let higher = vec![act("M-j", "no-such-action")];
    let table = resolve(&vec![], &vec![lower, higher]);
    assert_eq!(table.lookup("M-j"), Some(&spawn("xterm")));
}

#[test]
fn action_names_match_in_any_case() {
    let layer = vec![act("a", "kiLL"), act("b", "EXIT"), act("c", "ToggleFullScreen"), act("d", "focusnext")];
    let table = resolve(&vec![], &vec![layer]);
    assert_eq!(table.lookup("a"), Some(&named(ActionTag::Kill)));
    assert_eq!(table.lookup("b"), Some(&named(ActionTag::Exit)));
    assert_eq!(table.lookup("c"), Some(&named(ActionTag::ToggleFullScreen)));
    assert_eq!(table.lookup("d"), Some(&named(ActionTag::FocusNext)));
}

#[test]
fn key_combos_are_case_sensitive() {
    let table = resolve(&vec![], &vec![vec![cmd("M-j", "lower"), cmd("M-J", "upper")]]);
    assert_eq!(table.lookup("M-j"), Some(&spawn("lower")));
    assert_eq!(table.lookup("M-J"), Some(&spawn("upper")));
    assert_eq!(table.lookup("m-j"), None);
}

#[test]
fn tag_bindings_are_generated() {
    let table = resolve(&vec![], &vec![]);
    assert_eq!(table.len(), 18);
    for i in 0..9usize {
        let tag = (i + 1).to_string();
        assert_eq!(table.lookup(&format!("M-{tag}")), Some(&named(ActionTag::FocusWorkspace(i))));
        assert_eq!(table.lookup(&format!("M-S-{tag}")), Some(&named(ActionTag::MoveFocusedTo(i))));
    }
    assert_eq!(table.lookup("M-0"), None);
    assert_eq!(table.lookup("M-10"), None);
}

#[test]
fn tag_bindings_win_over_every_layer() {
    let defaults = vec![cmd("M-1", "default")];
    let layers = vec![vec![cmd("M-S-9", "user"), act("M-5", "kill")]];
    let table = resolve(&defaults, &layers);
    assert_eq!(table.lookup("M-1"), Some(&named(ActionTag::FocusWorkspace(0))));
    assert_eq!(table.lookup("M-5"), Some(&named(ActionTag::FocusWorkspace(4))));
    assert_eq!(table.lookup("M-S-9"), Some(&named(ActionTag::MoveFocusedTo(8))));
    assert_eq!(table.len(), 18);
}

#[test]
fn resolving_twice_gives_the_same_table() {
    let defaults = vec![act("M-j", "focusnext"), cmd("M-x", "firefox")];
    let layers = vec![vec![cmd("M-j", "xterm")], vec![act("M-3", "exit"), act("M-q", "kill")]];
    let first = resolve(&defaults, &layers);
    let second = resolve(&defaults, &layers);
    assert_eq!(keys(&first), keys(&second));
    for key in keys(&first) {
        assert_eq!(first.lookup(&key), second.lookup(&key));
    }
    for i in 1..=9 {
        assert_eq!(first.lookup(&format!("M-{i}")), second.lookup(&format!("M-{i}")));
        assert_eq!(first.lookup(&format!("M-S-{i}")), second.lookup(&format!("M-S-{i}")));
    }
}

#[test]
fn a_rebound_key_keeps_its_place() {
    let defaults = vec![cmd("a", "1"), cmd("b", "2"), cmd("c", "3")];
    let layers = vec![vec![cmd("b", "two"), cmd("d", "4")]];
    let table = resolve(&defaults, &layers);
    let expected: Vec<String> = ["a", "b", "c", "d"].iter().map(|k| k.to_string()).collect();
    assert_eq!(keys(&table)[..4], expected[..]);
    assert_eq!(table.entry(1), Some(&BindingEntry { key_combo: "b".to_string(), effect: spawn("two") }));
    assert_eq!(table.entry(4 + 18), None);
}

#[test]
fn bind_replaces_or_appends() {
    let mut table = BindingTable::new();
    assert_eq!(table.len(), 0);
    table.bind("M-a".to_string(), spawn("one"));
    table.bind("M-b".to_string(), named(ActionTag::Kill));
    table.bind("M-a".to_string(), spawn("two"));
    assert_eq!(table.len(), 2);
    assert_eq!(table.lookup("M-a"), Some(&spawn("two")));
    assert_eq!(table.lookup("M-b"), Some(&named(ActionTag::Kill)));
    assert_eq!(table.lookup("M-c"), None);
}

#[test]
fn bind_entry_passes_over_unknown_names() {
    let mut table = BindingTable::new();
    table.bind_entry("M-a", &BindingSpec::ActionName("nothing".to_string()));
    assert_eq!(table.len(), 0);
    table.bind_entry("M-a", &BindingSpec::ActionName("INCMAIN".to_string()));
    table.bind_entry("M-b", &BindingSpec::Command("dmenu_run".to_string()));
    assert_eq!(table.lookup("M-a"), Some(&named(ActionTag::IncMain)));
    assert_eq!(table.lookup("M-b"), Some(&spawn("dmenu_run")));
}

#[test]
fn bind_layer_and_lists_fold_in_order() {
    let mut table = BindingTable::new();
    table.bind_layer(&vec![cmd("x", "1"), cmd("x", "2")]);
    assert_eq!(table.lookup("x"), Some(&spawn("2")));
    table.bind_commands(&vec![Command::new("x", "3"), Command::new("y", "4")]);
    assert_eq!(table.lookup("x"), Some(&spawn("3")));
    table.bind_actions(&vec![Action::new("y", "Exit"), Action::new("x", "bogus")]);
    assert_eq!(table.lookup("y"), Some(&named(ActionTag::Exit)));
    assert_eq!(table.lookup("x"), Some(&spawn("3")));
}

#[test]
fn handle_config_folds_the_four_lists() {
    let mut cfg = empty_config();
    cfg.commands = vec![Command::new("M-a", "base"), Command::new("M-b", "base")];
    cfg.actions = vec![Action::new("M-b", "kill"), Action::new("M-c", "exit")];
    cfg.xcommands = vec![Command::new("M-c", "extended")];
    cfg.xactions = vec![Action::new("M-a", "SwapDown")];
    cfg.wcommands = vec![Command::new("M-a", "compositor")];
    cfg.wactions = vec![Action::new("M-b", "exit")];
    let table = handle_config(&cfg);
    assert_eq!(table.len(), 3);
    assert_eq!(table.lookup("M-a"), Some(&named(ActionTag::SwapDown)));
    assert_eq!(table.lookup("M-b"), Some(&named(ActionTag::Kill)));
    assert_eq!(table.lookup("M-c"), Some(&spawn("extended")));
    assert_eq!(table.lookup("M-1"), None);
}

#[test]
fn default_config_resolves_to_its_bindings() {
    let table = raw_key_bindings(handle_config(&Config::default()));
    assert_eq!(table.lookup("M-S-Return"), Some(&spawn("alacritty")));
    assert_eq!(table.lookup("M-x"), Some(&spawn("firefox")));
    assert_eq!(table.lookup("M-S-x"), Some(&named(ActionTag::Exit)));
    assert_eq!(table.lookup("M-S-q"), Some(&named(ActionTag::Kill)));
    assert_eq!(table.lookup("M-A-e"), Some(&spawn("emacs")));
    assert_eq!(table.lookup("M-C-v"), Some(&spawn("vim")));
    assert_eq!(table.lookup("M-j"), Some(&named(ActionTag::FocusNext)));
    assert_eq!(table.lookup("M-f"), Some(&named(ActionTag::ToggleFullScreen)));
    assert_eq!(table.lookup("M-k"), Some(&named(ActionTag::FocusPrevious)));
    assert_eq!(table.lookup("M-S-j"), Some(&named(ActionTag::SwapDown)));
    assert_eq!(table.lookup("M-S-k"), Some(&named(ActionTag::SwapUp)));
    assert_eq!(table.lookup("M-S-f"), Some(&named(ActionTag::FloatFocused)));
    assert_eq!(table.lookup("M-Tab"), Some(&named(ActionTag::ToggleTag)));
    assert_eq!(table.lookup("M-bracketright"), Some(&named(ActionTag::FocusNextScreen)));
    assert_eq!(table.lookup("M-bracketleft"), Some(&named(ActionTag::FocusPreviousScreen)));
    assert_eq!(table.lookup("M-grave"), Some(&named(ActionTag::NextLayout)));
    assert_eq!(table.lookup("M-S-grave"), Some(&named(ActionTag::PreviousLayout)));
    assert_eq!(table.lookup("M-S-Up"), Some(&named(ActionTag::ShrinkMain)));
    assert_eq!(table.lookup("M-S-Down"), Some(&named(ActionTag::DecMain)));
    assert_eq!(table.lookup("M-S-Right"), Some(&named(ActionTag::ExpandMain)));
    assert_eq!(table.lookup("M-4"), Some(&named(ActionTag::FocusWorkspace(3))));
    assert_eq!(table.len(), 20 + 18);
}

#[test]
fn raw_key_bindings_adds_the_tags_last() {
    let mut table = BindingTable::new();
    table.bind("M-2".to_string(), spawn("mine"));
    table.bind("M-q".to_string(), spawn("other"));
    let table = raw_key_bindings(table);
    assert_eq!(table.lookup("M-2"), Some(&named(ActionTag::FocusWorkspace(1))));
    assert_eq!(table.lookup("M-q"), Some(&spawn("other")));
    let keys = keys(&table);
    assert_eq!(keys[0], "M-2");
    assert_eq!(keys[1], "M-q");
    assert_eq!(keys[2], "M-1");
    assert_eq!(keys[3], "M-S-1");
    assert_eq!(keys[4], "M-S-2");
    assert_eq!(keys.len(), 19);
}

#[test]
fn all_chords_parsed_gives_a_dispatch_table() {
    let mut table = BindingTable::new();
    table.bind("M-a".to_string(), spawn("one"));
    table.bind("M-b".to_string(), named(ActionTag::Kill));
    let codes = vec![Some(KeyCode { mask: 64, code: 38 }), Some(KeyCode { mask: 64, code: 56 })];
    let dispatch = table.with_key_codes(&codes).unwrap();
    assert_eq!(dispatch.len(), 2);
    assert_eq!(dispatch.lookup(KeyCode { mask: 64, code: 38 }), Some(&spawn("one")));
    assert_eq!(dispatch.lookup(KeyCode { mask: 64, code: 56 }), Some(&named(ActionTag::Kill)));
    assert_eq!(dispatch.lookup(KeyCode { mask: 65, code: 56 }), None);
    assert_eq!(dispatch.lookup(KeyCode { mask: 64, code: 57 }), None);
    assert_eq!(dispatch.entry(0).map(|e| e.code), Some(KeyCode { mask: 64, code: 38 }));
    assert!(dispatch.entry(2).is_none());
}

#[test]
fn one_unparsed_chord_fails_the_whole_table() {
    let mut table = BindingTable::new();
    table.bind("M-a".to_string(), spawn("one"));
    table.bind("M-nokey".to_string(), spawn("two"));
    table.bind("Q-b".to_string(), spawn("three"));
    let codes = vec![Some(KeyCode { mask: 64, code: 38 }), None, None];
    assert_eq!(table.with_key_codes(&codes).err(), Some(KeyError::UnparsableKey(1)));
    let codes = vec![None, Some(KeyCode { mask: 64, code: 38 }), Some(KeyCode { mask: 64, code: 39 })];
    assert_eq!(table.with_key_codes(&codes).err(), Some(KeyError::UnparsableKey(0)));
}

#[test]
fn a_chord_without_an_answer_counts_as_unparsed() {
    let mut table = BindingTable::new();
    table.bind("M-a".to_string(), spawn("one"));
    table.bind("M-b".to_string(), spawn("two"));
    let codes = vec![Some(KeyCode { mask: 64, code: 38 })];
    assert_eq!(table.with_key_codes(&codes).err(), Some(KeyError::UnparsableKey(1)));
    assert_eq!(table.with_key_codes(&vec![]).err(), Some(KeyError::UnparsableKey(0)));
    assert!(BindingTable::new().with_key_codes(&vec![]).is_ok());
}

#[test]
fn chords_with_one_code_leave_the_later_binding() {
    let mut table = BindingTable::new();
    table.bind("M-S-a".to_string(), spawn("first"));
    table.bind("M-b".to_string(), spawn("between"));
    table.bind("S-M-a".to_string(), spawn("second"));
    let same = KeyCode { mask: 65, code: 38 };
    let codes = vec![Some(same), Some(KeyCode { mask: 64, code: 56 }), Some(same)];
    let dispatch = table.with_key_codes(&codes).unwrap();
    assert_eq!(dispatch.len(), 2);
    assert_eq!(dispatch.lookup(same), Some(&spawn("second")));
    assert_eq!(dispatch.entry(0).map(|e| e.code), Some(same));
}
