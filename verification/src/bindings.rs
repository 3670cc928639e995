//! The binding resolver: from layers of configured bindings to the table
//! that says what each key chord does.
//!
//! A table is a list of bindings in which no key chord occurs twice. Binding
//! a chord that is already in the table replaces what it was bound to, where
//! it stands; binding a new chord adds it at the end. Layers are folded into
//! the table in order, entry by entry, so whoever comes later wins.

use vstd::prelude::*;
use crate::actions::action_named;
use crate::actions::lowercase_of;
use crate::actions::match_actions;
use crate::actions::ActionTag;
use crate::actions::Effect;
use crate::actions::EffectView;
use crate::config::Action;
use crate::config::Command;
use crate::config::Config;

verus! {

/// What a configuration binds a key chord to.
#[derive(Debug, Clone, PartialEq, Eq)]
pub enum BindingSpec {
    /// A shell command to start.
    Command(String),
    /// The name of an operation, in any case of letters.
    ActionName(String),
}

/// A [`BindingSpec`] with its text laid open.
pub enum BindingSpecView {
    Command(Seq<char>),
    ActionName(Seq<char>),
}

impl View for BindingSpec {
    type V = BindingSpecView;

    open spec fn view(&self) -> BindingSpecView {
        match self {
            BindingSpec::Command(command) => BindingSpecView::Command(command@),
            BindingSpec::ActionName(name) => BindingSpecView::ActionName(name@),
        }
    }
}

/// One entry of a configuration layer.
#[derive(Debug, Clone, PartialEq, Eq)]
pub struct LayerEntry {
    pub key_combo: String,
    pub spec: BindingSpec,
}

/// A [`LayerEntry`] with its text laid open.
pub struct LayerEntryView {
    pub key: Seq<char>,
    pub spec: BindingSpecView,
}

impl View for LayerEntry {
    type V = LayerEntryView;

    open spec fn view(&self) -> LayerEntryView {
        LayerEntryView { key: self.key_combo@, spec: self.spec@ }
    }
}

/// The entries of a layer, laid open.
pub open spec fn layer_view(layer: Seq<LayerEntry>) -> Seq<LayerEntryView> {
    layer.map_values(|e: LayerEntry| e@)
}

/// The layers of a list, laid open.
pub open spec fn layers_view(layers: Seq<Vec<LayerEntry>>) -> Seq<Seq<LayerEntryView>> {
    layers.map_values(|l: Vec<LayerEntry>| layer_view(l@))
}

/// What an entry binds its chord to: a command always, an operation where
/// the name stands for one. An entry with an unknown name binds nothing.
pub open spec fn entry_effect(spec: BindingSpecView) -> Option<EffectView> {
    match spec {
        BindingSpecView::Command(command) => Some(EffectView::SpawnCommand(command)),
        BindingSpecView::ActionName(name) => match action_named(lowercase_of(name)) {
            Some(tag) => Some(EffectView::NamedAction(tag)),
            None => None,
        },
    }
}

/// One entry of a table: a key and what it is bound to. The key is the
/// text of a chord in a [`BindingTable`], a key code in a [`DispatchTable`].
pub struct Bound<K> {
    pub key: K,
    pub effect: EffectView,
}

/// One binding of a table keyed by chords.
pub type BindingView = Bound<Seq<char>>;

pub open spec fn has_key<K>(table: Seq<Bound<K>>, key: K) -> bool {
    exists|i: int| 0 <= i < table.len() && (#[trigger] table[i]).key == key
}

/// A position of `key` in the table; the only one where no key occurs
/// twice.
pub open spec fn index_of_key<K>(table: Seq<Bound<K>>, key: K) -> int {
    choose|i: int| 0 <= i < table.len() && (#[trigger] table[i]).key == key
}

/// No key occurs twice.
pub open spec fn unique_keys<K>(table: Seq<Bound<K>>) -> bool {
    forall|i: int, j: int|
        0 <= i < table.len() && 0 <= j < table.len() && (#[trigger] table[i]).key
            == (#[trigger] table[j]).key ==> i == j
}

/// What `key` is bound to.
pub open spec fn binding_of<K>(table: Seq<Bound<K>>, key: K) -> Option<EffectView> {
    if has_key(table, key) {
        Some(table[index_of_key(table, key)].effect)
    } else {
        None
    }
}

/// The table with `key` bound to `effect`.
pub open spec fn bound<K>(table: Seq<Bound<K>>, key: K, effect: EffectView) -> Seq<Bound<K>> {
    if has_key(table, key) {
        table.update(index_of_key(table, key), Bound { key, effect })
    } else {
        table.push(Bound { key, effect })
    }
}

/// The table with the entries of `layer` folded in, first to last.
pub open spec fn with_layer(table: Seq<BindingView>, layer: Seq<LayerEntryView>) -> Seq<
    BindingView,
>
    decreases layer.len(),
{
    if layer.len() == 0 {
        table
    } else {
        let before = with_layer(table, layer.drop_last());
        match entry_effect(layer.last().spec) {
            Some(effect) => bound(before, layer.last().key, effect),
            None => before,
        }
    }
}

/// The table with `layers` folded in, first to last.
pub open spec fn with_layers(table: Seq<BindingView>, layers: Seq<Seq<LayerEntryView>>) -> Seq<
    BindingView,
>
    decreases layers.len(),
{
    if layers.len() == 0 {
        table
    } else {
        with_layer(with_layers(table, layers.drop_last()), layers.last())
    }
}

/// What `layer` itself binds `key` to: the effect of its last entry for
/// `key` that binds anything.
pub open spec fn layer_binding(layer: Seq<LayerEntryView>, key: Seq<char>) -> Option<EffectView>
    decreases layer.len(),
{
    if layer.len() == 0 {
        None
    } else if layer.last().key == key && entry_effect(layer.last().spec) is Some {
        entry_effect(layer.last().spec)
    } else {
        layer_binding(layer.drop_last(), key)
    }
}

/// The number of workspace tags that get generated bindings.
pub const TAG_COUNT: usize = 9;

/// The name of the tag of workspace `index`: `"1"` for the first.
pub open spec fn tag_name(index: int) -> Seq<char> {
    if index == 0 {
        "1"@
    } else if index == 1 {
        "2"@
    } else if index == 2 {
        "3"@
    } else if index == 3 {
        "4"@
    } else if index == 4 {
        "5"@
    } else if index == 5 {
        "6"@
    } else if index == 6 {
        "7"@
    } else if index == 7 {
        "8"@
    } else {
        "9"@
    }
}

/// The chord that shows workspace `index`.
pub open spec fn focus_key(index: int) -> Seq<char> {
    "M-"@ + tag_name(index)
}

/// The chord that moves the focused window to workspace `index`.
pub open spec fn move_key(index: int) -> Seq<char> {
    "M-S-"@ + tag_name(index)
}

/// The table with the generated bindings of the first `count` tags.
pub open spec fn with_tags(table: Seq<BindingView>, count: nat) -> Seq<BindingView>
    decreases count,
{
    if count == 0 {
        table
    } else {
        let index = (count - 1) as int;
        bound(
            bound(
                with_tags(table, (count - 1) as nat),
                focus_key(index),
                EffectView::NamedAction(ActionTag::FocusWorkspace(index as usize)),
            ),
            move_key(index),
            EffectView::NamedAction(ActionTag::MoveFocusedTo(index as usize)),
        )
    }
}

/// The resolved table: the defaults, then each layer in order, then the
/// generated tag bindings.
pub open spec fn resolved(defaults: Seq<LayerEntryView>, layers: Seq<Seq<LayerEntryView>>) -> Seq<
    BindingView,
> {
    with_tags(with_layers(with_layer(Seq::empty(), defaults), layers), TAG_COUNT as nat)
}

/// Binding a key keeps the keys of a table unique, binds that key, and
/// leaves every other key as it was.
pub proof fn lemma_bound<K>(table: Seq<Bound<K>>, key: K, effect: EffectView)
    requires
        unique_keys(table),
    ensures
        unique_keys(bound(table, key, effect)),
        binding_of(bound(table, key, effect), key) == Some(effect),
        forall|other: K|
            other != key ==> binding_of(bound(table, key, effect), other) == binding_of(
                table,
                other,
            ),
{
    let after = bound(table, key, effect);
    let at = if has_key(table, key) {
        index_of_key(table, key)
    } else {
        table.len() as int
    };
    assert(after[at].key == key);
    assert(has_key(after, key));
    assert forall|i: int| 0 <= i < table.len() && i != at implies (#[trigger] after[i]) == table[i] by {}
    assert forall|i: int, j: int|
        0 <= i < after.len() && 0 <= j < after.len() && (#[trigger] after[i]).key
            == (#[trigger] after[j]).key implies i == j by {
        if i != at && j != at {
            assert(table[i].key == table[j].key);
        } else if i != at {
            assert(table[i].key == key);
        } else if j != at {
            assert(table[j].key == key);
        }
    }
    assert(index_of_key(after, key) == at);
    assert forall|other: K| other != key implies binding_of(after, other) == binding_of(
        table,
        other,
    ) by {
        if has_key(table, other) {
            let i = index_of_key(table, other);
            assert(after[i].key == other);
            let j = index_of_key(after, other);
            assert(after[j].key == other);
            assert(i == j);
        } else if has_key(after, other) {
            let j = index_of_key(after, other);
            assert(table[j].key == other);
        }
    }
}

/// Folding a layer in keeps the chords unique; a chord the layer binds
/// gets the layer's last word, any other chord keeps what it had.
pub proof fn lemma_with_layer(table: Seq<BindingView>, layer: Seq<LayerEntryView>, key: Seq<char>)
    requires
        unique_keys(table),
    ensures
        unique_keys(with_layer(table, layer)),
        binding_of(with_layer(table, layer), key) == match layer_binding(layer, key) {
            Some(effect) => Some(effect),
            None => binding_of(table, key),
        },
    decreases layer.len(),
{
    if layer.len() > 0 {
        let before = with_layer(table, layer.drop_last());
        lemma_with_layer(table, layer.drop_last(), key);
        match entry_effect(layer.last().spec) {
            Some(effect) => {
                lemma_bound(before, layer.last().key, effect);
            },
            None => {},
        }
    }
}

/// What `layers` bind `key` to: the word of the last layer that binds it.
pub open spec fn layers_binding(layers: Seq<Seq<LayerEntryView>>, key: Seq<char>) -> Option<
    EffectView,
>
    decreases layers.len(),
{
    if layers.len() == 0 {
        None
    } else {
        match layer_binding(layers.last(), key) {
            Some(effect) => Some(effect),
            None => layers_binding(layers.drop_last(), key),
        }
    }
}

/// Folding layers in keeps the chords unique; a chord some layer binds gets
/// the word of the last such layer, any other chord keeps what it had.
pub proof fn lemma_with_layers(
    table: Seq<BindingView>,
    layers: Seq<Seq<LayerEntryView>>,
    key: Seq<char>,
)
    requires
        unique_keys(table),
    ensures
        unique_keys(with_layers(table, layers)),
        binding_of(with_layers(table, layers), key) == match layers_binding(layers, key) {
            Some(effect) => Some(effect),
            None => binding_of(table, key),
        },
    decreases layers.len(),
{
    if layers.len() > 0 {
        lemma_with_layers(table, layers.drop_last(), key);
        lemma_with_layer(with_layers(table, layers.drop_last()), layers.last(), key);
    }
}

/// Layering: where a lower and a higher layer both bind a chord, the table
/// has the higher layer's word for it.
pub proof fn lemma_higher_layer_wins(
    table: Seq<BindingView>,
    lower: Seq<LayerEntryView>,
    higher: Seq<LayerEntryView>,
    key: Seq<char>,
)
    requires
        unique_keys(table),
        layer_binding(higher, key) is Some,
    ensures
        binding_of(with_layer(with_layer(table, lower), higher), key) == layer_binding(higher, key),
{
    lemma_with_layer(table, lower, key);
    lemma_with_layer(with_layer(table, lower), higher, key);
}

/// What the generated bindings of the first `count` tags bind `key` to.
pub open spec fn generated_binding(key: Seq<char>, count: nat) -> Option<EffectView>
    decreases count,
{
    if count == 0 {
        None
    } else {
        let index = (count - 1) as int;
        if key == move_key(index) {
            Some(EffectView::NamedAction(ActionTag::MoveFocusedTo(index as usize)))
        } else if key == focus_key(index) {
            Some(EffectView::NamedAction(ActionTag::FocusWorkspace(index as usize)))
        } else {
            generated_binding(key, (count - 1) as nat)
        }
    }
}

/// Adding the generated bindings keeps the chords unique; a generated chord
/// gets its generated effect, any other chord keeps what it had.
pub proof fn lemma_with_tags(table: Seq<BindingView>, count: nat, key: Seq<char>)
    requires
        unique_keys(table),
    ensures
        unique_keys(with_tags(table, count)),
        binding_of(with_tags(table, count), key) == match generated_binding(key, count) {
            Some(effect) => Some(effect),
            None => binding_of(table, key),
        },
    decreases count,
{
    if count > 0 {
        let index = (count - 1) as int;
        let before = with_tags(table, (count - 1) as nat);
        lemma_with_tags(table, (count - 1) as nat, key);
        let focus = EffectView::NamedAction(ActionTag::FocusWorkspace(index as usize));
        let moved = EffectView::NamedAction(ActionTag::MoveFocusedTo(index as usize));
        lemma_bound(before, focus_key(index), focus);
        lemma_bound(bound(before, focus_key(index), focus), move_key(index), moved);
    }
}

/// The precedence of the resolver, in one sentence: a generated chord has
/// its generated effect; any other chord has the word of the last layer that
/// binds it; a chord no layer binds has what the defaults bind it to.
pub proof fn lemma_resolved_precedence(
    defaults: Seq<LayerEntryView>,
    layers: Seq<Seq<LayerEntryView>>,
    key: Seq<char>,
)
    ensures
        unique_keys(resolved(defaults, layers)),
        binding_of(resolved(defaults, layers), key) == match generated_binding(
            key,
            TAG_COUNT as nat,
        ) {
            Some(effect) => Some(effect),
            None => match layers_binding(layers, key) {
                Some(effect) => Some(effect),
                None => layer_binding(defaults, key),
            },
        },
{
    let empty = Seq::<BindingView>::empty();
    assert(!has_key(empty, key));
    lemma_with_layer(empty, defaults, key);
    lemma_with_layers(with_layer(empty, defaults), layers, key);
    lemma_with_tags(with_layers(with_layer(empty, defaults), layers), TAG_COUNT as nat, key);
}

/// Layering, said of the resolved table: a chord that is not a generated
/// one and that the highest layer binds has the highest layer's word,
/// whatever the defaults and the lower layers say.
pub proof fn lemma_resolved_last_layer_wins(
    defaults: Seq<LayerEntryView>,
    layers: Seq<Seq<LayerEntryView>>,
    key: Seq<char>,
)
    requires
        layers.len() > 0,
        layer_binding(layers.last(), key) is Some,
        generated_binding(key, TAG_COUNT as nat) is None,
    ensures
        binding_of(resolved(defaults, layers), key) == layer_binding(layers.last(), key),
{
    lemma_resolved_precedence(defaults, layers, key);
}

/// The generated chords are eighteen different texts.
pub proof fn lemma_generated_keys_differ(i: int, j: int)
    requires
        0 <= i < TAG_COUNT,
        0 <= j < TAG_COUNT,
    ensures
        focus_key(i) != move_key(j),
        i != j ==> focus_key(i) != focus_key(j),
        i != j ==> move_key(i) != move_key(j),
{
    reveal_strlit("M-");
    reveal_strlit("M-S-");
    reveal_strlit("1");
    reveal_strlit("2");
    reveal_strlit("3");
    reveal_strlit("4");
    reveal_strlit("5");
    reveal_strlit("6");
    reveal_strlit("7");
    reveal_strlit("8");
    reveal_strlit("9");
    assert(focus_key(i).len() == 3);
    assert(move_key(j).len() == 5);
    if i != j {
        assert(focus_key(i)[2] == tag_name(i)[0]);
        assert(focus_key(j)[2] == tag_name(j)[0]);
        assert(tag_name(i)[0] != tag_name(j)[0]);
        assert(move_key(i)[4] == tag_name(i)[0]);
        assert(move_key(j)[4] == tag_name(j)[0]);
    }
}

/// What the generated bindings say of their own chords.
pub proof fn lemma_generated_binding_of_tag(index: int, count: nat)
    requires
        0 <= index < count <= TAG_COUNT,
    ensures
        generated_binding(focus_key(index), count) == Some(
            EffectView::NamedAction(ActionTag::FocusWorkspace(index as usize)),
        ),
        generated_binding(move_key(index), count) == Some(
            EffectView::NamedAction(ActionTag::MoveFocusedTo(index as usize)),
        ),
    decreases count,
{
    let last = (count - 1) as int;
    lemma_generated_keys_differ(index, last);
    lemma_generated_keys_differ(last, index);
    if index < last {
        lemma_generated_binding_of_tag(index, (count - 1) as nat);
    }
}

/// Whatever the defaults and the layers hold, the resolved table binds the
/// chord of each tag to showing its workspace, and the shifted chord to
/// moving the focused window there.
pub proof fn lemma_tag_bindings_always_win(
    defaults: Seq<LayerEntryView>,
    layers: Seq<Seq<LayerEntryView>>,
    index: int,
)
    requires
        0 <= index < TAG_COUNT,
    ensures
        binding_of(resolved(defaults, layers), focus_key(index)) == Some(
            EffectView::NamedAction(ActionTag::FocusWorkspace(index as usize)),
        ),
        binding_of(resolved(defaults, layers), move_key(index)) == Some(
            EffectView::NamedAction(ActionTag::MoveFocusedTo(index as usize)),
        ),
{
    lemma_generated_binding_of_tag(index, TAG_COUNT as nat);
    lemma_resolved_precedence(defaults, layers, focus_key(index));
    lemma_resolved_precedence(defaults, layers, move_key(index));
}

/// The resolved table is a function of the defaults and the layers: the
/// same configuration resolves to the same table, chord for chord and
/// effect for effect.
pub proof fn lemma_resolved_deterministic(
    defaults_a: Seq<LayerEntryView>,
    layers_a: Seq<Seq<LayerEntryView>>,
    defaults_b: Seq<LayerEntryView>,
    layers_b: Seq<Seq<LayerEntryView>>,
)
    requires
        defaults_a == defaults_b,
        layers_a == layers_b,
    ensures
        resolved(defaults_a, layers_a) == resolved(defaults_b, layers_b),
{
}

/// The entries a list of commands stands for.
pub open spec fn command_entries(commands: Seq<Command>) -> Seq<LayerEntryView> {
    commands.map_values(
        |c: Command| LayerEntryView { key: c.keybind@, spec: BindingSpecView::Command(c.command@) },
    )
}

/// The entries a list of named actions stands for.
pub open spec fn action_entries(actions: Seq<Action>) -> Seq<LayerEntryView> {
    actions.map_values(
        |a: Action| LayerEntryView { key: a.keybind@, spec: BindingSpecView::ActionName(a.action@) },
    )
}

/// The layers of an X session's configuration, lowest first: the base
/// commands, the base actions, the extended commands, the extended actions.
pub open spec fn config_layers(cfg: &Config) -> Seq<Seq<LayerEntryView>> {
    seq![
        command_entries(cfg.commands@),
        action_entries(cfg.actions@),
        command_entries(cfg.xcommands@),
        action_entries(cfg.xactions@),
    ]
}

/// One binding of a table.
#[derive(Debug, Clone, PartialEq, Eq)]
pub struct BindingEntry {
    pub key_combo: String,
    pub effect: Effect,
}

impl View for BindingEntry {
    type V = BindingView;

    open spec fn view(&self) -> BindingView {
        Bound { key: self.key_combo@, effect: self.effect@ }
    }
}

/// A table of bindings in which no key chord occurs twice.
#[derive(Debug)]
pub struct BindingTable {
    entries: Vec<BindingEntry>,
}

impl View for BindingTable {
    type V = Seq<BindingView>;

    closed spec fn view(&self) -> Seq<BindingView> {
        self.entries@.map_values(|e: BindingEntry| e@)
    }
}

impl BindingTable {
    /// The invariant of the table.
    pub open spec fn wf(&self) -> bool {
        unique_keys(self@)
    }

    /// A table without bindings.
    pub fn new() -> (t: Self)
        ensures
            t.wf(),
            t@ == Seq::<BindingView>::empty(),
    {
        let t = BindingTable { entries: Vec::new() };
        assert(t@ =~= Seq::<BindingView>::empty());
        t
    }

    /// The number of bindings.
    pub fn len(&self) -> (n: usize)
        ensures
            n == self@.len(),
    {
        self.entries.len()
    }

    /// The binding at position `index`.
    pub fn entry(&self, index: usize) -> (e: Option<&BindingEntry>)
        ensures
            match e {
                Some(entry) => index < self@.len() && entry@ == self@[index as int],
                None => index >= self@.len(),
            },
    {
        if index < self.entries.len() {
            Some(&self.entries[index])
        } else {
            None
        }
    }

    /// Where `key` stands in the table.
    fn position(&self, key: &String) -> (r: Option<usize>)
        requires
            self.wf(),
        ensures
            match r {
                Some(i) => has_key(self@, key@) && i == index_of_key(self@, key@),
                None => !has_key(self@, key@),
            },
    {
        let n = self.entries.len();
        let mut i: usize = 0;
        while i < n
            invariant
                self.wf(),
                n == self.entries@.len(),
                i <= n,
                forall|j: int| 0 <= j < i ==> (#[trigger] self@[j]).key != key@,
            decreases n - i,
        {
            if self.entries[i].key_combo == *key {
                assert(self@[i as int].key == key@);
                let ghost found = index_of_key(self@, key@);
                assert(self@[found].key == self@[i as int].key);
                return Some(i);
            }
            i = i + 1;
        }
        None
    }

    /// What `key_combo` is bound to, if it is bound.
    pub fn lookup(&self, key_combo: &str) -> (r: Option<&Effect>)
        requires
            self.wf(),
        ensures
            match r {
                Some(effect) => binding_of(self@, key_combo@) == Some(effect@),
                None => binding_of(self@, key_combo@) is None,
            },
    {
        let key = String::from_str(key_combo);
        match self.position(&key) {
            Some(i) => Some(&self.entries[i].effect),
            None => None,
        }
    }

    /// Binds `key_combo` to `effect`: in place of what it was bound to, or
    /// at the end of the table if it was not bound.
    pub fn bind(&mut self, key_combo: String, effect: Effect)
        requires
            old(self).wf(),
        ensures
            final(self).wf(),
            final(self)@ == bound(old(self)@, key_combo@, effect@),
    {
        proof {
            lemma_bound(self@, key_combo@, effect@);
        }
        match self.position(&key_combo) {
            Some(i) => {
                self.entries.set(i, BindingEntry { key_combo, effect });
            },
            None => {
                self.entries.push(BindingEntry { key_combo, effect });
            },
        }
        assert(self@ =~= bound(old(self)@, key_combo@, effect@));
    }

    /// Folds one entry in: a command is bound as it is, a named action if
    /// its name stands for an operation; an unknown name is passed over.
    pub fn bind_entry(&mut self, key_combo: &str, spec: &BindingSpec)
        requires
            old(self).wf(),
        ensures
            final(self).wf(),
            final(self)@ == match entry_effect(spec@) {
                Some(effect) => bound(old(self)@, key_combo@, effect),
                None => old(self)@,
            },
    {
        match spec {
            BindingSpec::Command(command) => {
                self.bind(String::from_str(key_combo), Effect::SpawnCommand(command.clone()));
            },
            BindingSpec::ActionName(name) => {
                match match_actions(name.as_str()) {
                    Some(tag) => {
                        self.bind(String::from_str(key_combo), Effect::NamedAction(tag));
                    },
                    None => {},
                }
            },
        }
    }

    /// Folds a layer in, entry by entry.
    pub fn bind_layer(&mut self, layer: &Vec<LayerEntry>)
        requires
            old(self).wf(),
        ensures
            final(self).wf(),
            final(self)@ == with_layer(old(self)@, layer_view(layer@)),
    {
        let n = layer.len();
        let ghost entries = layer_view(layer@);
        let mut i: usize = 0;
        while i < n
            invariant
                n == layer@.len(),
                entries == layer_view(layer@),
                i <= n,
                self.wf(),
                self@ == with_layer(old(self)@, entries.take(i as int)),
            decreases n - i,
        {
            proof {
                assert(entries.take(i + 1).drop_last() == entries.take(i as int));
            }
            self.bind_entry(layer[i].key_combo.as_str(), &layer[i].spec);
            i = i + 1;
        }
        proof {
            assert(entries.take(n as int) == entries);
        }
    }

    /// Folds a list of commands in.
    pub fn bind_commands(&mut self, commands: &Vec<Command>)
        requires
            old(self).wf(),
        ensures
            final(self).wf(),
            final(self)@ == with_layer(old(self)@, command_entries(commands@)),
    {
        let n = commands.len();
        let ghost entries = command_entries(commands@);
        let mut i: usize = 0;
        while i < n
            invariant
                n == commands@.len(),
                entries == command_entries(commands@),
                i <= n,
                self.wf(),
                self@ == with_layer(old(self)@, entries.take(i as int)),
            decreases n - i,
        {
            proof {
                assert(entries.take(i + 1).drop_last() == entries.take(i as int));
            }
            self.bind(
                commands[i].keybind.clone(),
                Effect::SpawnCommand(commands[i].command.clone()),
            );
            i = i + 1;
        }
        proof {
            assert(entries.take(n as int) == entries);
        }
    }

    /// Folds a list of named actions in; unknown names are passed over.
    pub fn bind_actions(&mut self, actions: &Vec<Action>)
        requires
            old(self).wf(),
        ensures
            final(self).wf(),
            final(self)@ == with_layer(old(self)@, action_entries(actions@)),
    {
        let n = actions.len();
        let ghost entries = action_entries(actions@);
        let mut i: usize = 0;
        while i < n
            invariant
                n == actions@.len(),
                entries == action_entries(actions@),
                i <= n,
                self.wf(),
                self@ == with_layer(old(self)@, entries.take(i as int)),
            decreases n - i,
        {
            proof {
                assert(entries.take(i + 1).drop_last() == entries.take(i as int));
            }
            match match_actions(actions[i].action.as_str()) {
                Some(tag) => {
                    self.bind(actions[i].keybind.clone(), Effect::NamedAction(tag));
                },
                None => {},
            }
            i = i + 1;
        }
        proof {
            assert(entries.take(n as int) == entries);
        }
    }
}

/// The name of the tag of workspace `index`.
fn tag_text(index: usize) -> (name: &'static str)
    requires
        index < TAG_COUNT,
    ensures
        name@ == tag_name(index as int),
{
    if index == 0 {
        "1"
    } else if index == 1 {
        "2"
    } else if index == 2 {
        "3"
    } else if index == 3 {
        "4"
    } else if index == 4 {
        "5"
    } else if index == 5 {
        "6"
    } else if index == 6 {
        "7"
    } else if index == 7 {
        "8"
    } else {
        "9"
    }
}

/// The bindings a configuration asks for, without the generated ones: its
/// layers folded into an empty table.
pub fn handle_config(cfg: &Config) -> (keybinds: BindingTable)
    ensures
        keybinds.wf(),
        keybinds@ == with_layers(Seq::empty(), config_layers(cfg)),
{
    let mut keybinds = BindingTable::new();
    keybinds.bind_commands(&cfg.commands);
    keybinds.bind_actions(&cfg.actions);
    keybinds.bind_commands(&cfg.xcommands);
    keybinds.bind_actions(&cfg.xactions);
    proof {
        let l = config_layers(cfg);
        let l3 = l.drop_last();
        let l2 = l3.drop_last();
        let l1 = l2.drop_last();
        assert(l1.drop_last().len() == 0);
        assert(l.last() == action_entries(cfg.xactions@));
        assert(l3.last() == command_entries(cfg.xcommands@));
        assert(l2.last() == action_entries(cfg.actions@));
        assert(l1.last() == command_entries(cfg.commands@));
        let e = Seq::<BindingView>::empty();
        assert(with_layers(e, l1.drop_last()) == e);
        assert(with_layers(e, l1) == with_layer(e, l1.last()));
        assert(with_layers(e, l2) == with_layer(with_layers(e, l1), l2.last()));
        assert(with_layers(e, l3) == with_layer(with_layers(e, l2), l3.last()));
        assert(with_layers(e, l) == with_layer(with_layers(e, l3), l.last()));
    }
    keybinds
}

/// `keybinds` with the generated bindings on top: for each tag, its chord
/// shows the workspace and its shifted chord moves the focused window there.
pub fn raw_key_bindings(keybinds: BindingTable) -> (key_bindings: BindingTable)
    requires
        keybinds.wf(),
    ensures
        key_bindings.wf(),
        key_bindings@ == with_tags(keybinds@, TAG_COUNT as nat),
{
    let mut key_bindings = keybinds;
    let mut index: usize = 0;
    while index < TAG_COUNT
        invariant
            index <= TAG_COUNT,
            key_bindings.wf(),
            key_bindings@ == with_tags(keybinds@, index as nat),
        decreases TAG_COUNT - index,
    {
        let tag = tag_text(index);
        key_bindings.bind(
            String::from_str("M-").concat(tag),
            Effect::NamedAction(ActionTag::FocusWorkspace(index)),
        );
        key_bindings.bind(
            String::from_str("M-S-").concat(tag),
            Effect::NamedAction(ActionTag::MoveFocusedTo(index)),
        );
        index = index + 1;
    }
    key_bindings
}

/// Resolves a layered configuration into the table of bindings: the
/// defaults first, then each layer in order, then the generated tag
/// bindings, each binding replacing what came before it for the same chord.
pub fn resolve(defaults: &Vec<LayerEntry>, layers: &Vec<Vec<LayerEntry>>) -> (table: BindingTable)
    ensures
        table.wf(),
        table@ == resolved(layer_view(defaults@), layers_view(layers@)),
{
    let mut table = BindingTable::new();
    table.bind_layer(defaults);
    let ghost base = table@;
    let ghost all = layers_view(layers@);
    let n = layers.len();
    let mut i: usize = 0;
    while i < n
        invariant
            n == layers@.len(),
            all == layers_view(layers@),
            i <= n,
            table.wf(),
            table@ == with_layers(base, all.take(i as int)),
        decreases n - i,
    {
        proof {
            assert(all.take(i + 1).drop_last() == all.take(i as int));
        }
        table.bind_layer(&layers[i]);
        i = i + 1;
    }
    proof {
        assert(all.take(n as int) == all);
    }
    raw_key_bindings(table)
}

impl BindingTable {
    /// The chords of the table, in its order: what the display server is
    /// to parse.
    pub fn key_combos(&self) -> (keys: Vec<String>)
        ensures
            keys@.len() == self@.len(),
            forall|i: int| 0 <= i < keys@.len() ==> (#[trigger] keys@[i])@ == self@[i].key,
    {
        let n = self.entries.len();
        let mut keys: Vec<String> = Vec::new();
        let mut i: usize = 0;
        while i < n
            invariant
                n == self.entries@.len(),
                i <= n,
                keys@.len() == i,
                forall|j: int| 0 <= j < i ==> (#[trigger] keys@[j])@ == self@[j].key,
            decreases n - i,
        {
            keys.push(self.entries[i].key_combo.clone());
            i = i + 1;
        }
        keys
    }
}

} // verus!
