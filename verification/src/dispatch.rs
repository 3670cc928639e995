//! The dispatch table: what each key does, keyed by the key codes the
//! display server reports.
//!
//! Only the display server can tell which key a chord such as `M-S-Return`
//! names on the keyboard at hand. It is asked once for every chord of a
//! [`BindingTable`]; what it answers goes into [`BindingTable::with_key_codes`],
//! which builds the dispatch table or refuses to, if a chord did not parse.

use vstd::prelude::*;
use crate::actions::perform;
use crate::actions::step_effect;
use crate::actions::Effect;
use crate::actions::Reaction;
use crate::actions::ReactionView;
use crate::actions::Step;
use crate::bindings::binding_of;
use crate::bindings::bound;
use crate::bindings::has_key;
use crate::bindings::index_of_key;
use crate::bindings::lemma_bound;
use crate::bindings::unique_keys;
use crate::bindings::BindingTable;
use crate::bindings::BindingView;
use crate::bindings::Bound;
use crate::layout_spec::LayoutSpec;
use crate::workspace::StoreView;
use crate::workspace::Workspaces;

verus! {

/// A key with the modifiers held, as the display server reports it: what
/// the text of a chord becomes once the server has parsed it.
#[derive(Clone, Copy, Debug, PartialEq, Eq, Hash, Structural)]
pub struct KeyCode {
    pub mask: u16,
    pub code: u8,
}

/// One binding of a table keyed by key codes.
pub type DispatchView = Bound<KeyCode>;

/// Why no dispatch table could be built.
#[derive(Clone, Copy, Debug, PartialEq, Eq, Structural)]
pub enum KeyError {
    /// The chord of the binding at this position of the table did not
    /// parse.
    UnparsableKey(usize),
}

/// What the parser said of the chord at position `i`: nothing, where it
/// was not asked or gave no answer.
pub open spec fn outcome_at(codes: Seq<Option<KeyCode>>, i: int) -> Option<KeyCode> {
    if 0 <= i < codes.len() {
        codes[i]
    } else {
        None
    }
}

/// The chords of the first `count` bindings all parsed.
pub open spec fn all_parsed(codes: Seq<Option<KeyCode>>, count: int) -> bool {
    forall|i: int| 0 <= i < count ==> (#[trigger] outcome_at(codes, i)) is Some
}

/// The first `count` bindings, keyed by the codes their chords parsed to.
/// Where two chords parsed to one code, the later binding has it.
pub open spec fn dispatched(
    bindings: Seq<BindingView>,
    codes: Seq<Option<KeyCode>>,
    count: nat,
) -> Seq<DispatchView>
    decreases count,
{
    if count == 0 {
        Seq::empty()
    } else {
        bound(
            dispatched(bindings, codes, (count - 1) as nat),
            outcome_at(codes, count - 1)->0,
            bindings[count - 1].effect,
        )
    }
}

/// However the chords parsed, no key code occurs twice in the table built
/// from them.
pub proof fn lemma_dispatched_unique(
    bindings: Seq<BindingView>,
    codes: Seq<Option<KeyCode>>,
    count: nat,
)
    ensures
        unique_keys(dispatched(bindings, codes, count)),
    decreases count,
{
    if count > 0 {
        lemma_dispatched_unique(bindings, codes, (count - 1) as nat);
        lemma_bound(
            dispatched(bindings, codes, (count - 1) as nat),
            outcome_at(codes, count - 1)->0,
            bindings[count - 1].effect,
        );
    }
}

/// What a key press does: what the key is bound to, or nothing but the
/// request to pass the key on.
pub open spec fn step_key(
    table: Seq<DispatchView>,
    code: KeyCode,
    store: StoreView,
    layout: LayoutSpec,
) -> Step {
    match binding_of(table, code) {
        Some(effect) => step_effect(effect, store, layout),
        None => Step { store, layout, reaction: ReactionView::PassOn },
    }
}

/// One binding of a dispatch table.
#[derive(Debug, Clone, PartialEq, Eq)]
pub struct DispatchEntry {
    pub code: KeyCode,
    pub effect: Effect,
}

impl View for DispatchEntry {
    type V = DispatchView;

    open spec fn view(&self) -> DispatchView {
        Bound { key: self.code, effect: self.effect@ }
    }
}

/// The table the main loop consults on a key press. It is built once, from
/// a [`BindingTable`] whose chords all parsed, and never changed.
#[derive(Debug)]
pub struct DispatchTable {
    entries: Vec<DispatchEntry>,
}

impl View for DispatchTable {
    type V = Seq<DispatchView>;

    closed spec fn view(&self) -> Seq<DispatchView> {
        self.entries@.map_values(|e: DispatchEntry| e@)
    }
}

impl DispatchTable {
    /// The invariant of the table.
    pub open spec fn wf(&self) -> bool {
        unique_keys(self@)
    }

    /// The number of bindings.
    pub fn len(&self) -> (n: usize)
        ensures
            n == self@.len(),
    {
        self.entries.len()
    }

    /// The binding at position `index`.
    pub fn entry(&self, index: usize) -> (e: Option<&DispatchEntry>)
        ensures
            match e {
                Some(entry) => index < self@.len() && entry@ == self@[index as int],
                None => index >= self@.len(),
            },
    {
        if index < self.entries.len() {
            Some(&self.entries[index])
        } else {
            None
        }
    }

    /// Where `code` stands in the table.
    fn position(&self, code: KeyCode) -> (r: Option<usize>)
        requires
            self.wf(),
        ensures
            match r {
                Some(i) => has_key(self@, code) && i == index_of_key(self@, code),
                None => !has_key(self@, code),
            },
    {
        let n = self.entries.len();
        let mut i: usize = 0;
        while i < n
            invariant
                self.wf(),
                n == self.entries@.len(),
                i <= n,
                forall|j: int| 0 <= j < i ==> (#[trigger] self@[j]).key != code,
            decreases n - i,
        {
            if self.entries[i].code == code {
                assert(self@[i as int].key == code);
                let ghost found = index_of_key(self@, code);
                assert(self@[found].key == self@[i as int].key);
                return Some(i);
            }
            i = i + 1;
        }
        None
    }

    /// What the key is bound to; `None` for a key that is to be passed on
    /// unchanged.
    pub fn lookup(&self, code: KeyCode) -> (r: Option<&Effect>)
        requires
            self.wf(),
        ensures
            match r {
                Some(effect) => binding_of(self@, code) == Some(effect@),
                None => binding_of(self@, code) is None,
            },
    {
        match self.position(code) {
            Some(i) => Some(&self.entries[i].effect),
            None => None,
        }
    }

    /// Takes a key press: carries out what the key is bound to, or says
    /// that the key is to be passed on.
    pub fn on_key_event(
        &self,
        code: KeyCode,
        store: &mut Workspaces,
        layout: &mut LayoutSpec,
    ) -> (reaction: Reaction)
        requires
            self.wf(),
            old(store).wf(),
        ensures
            final(store).wf(),
            final(store)@ == step_key(self@, code, old(store)@, *old(layout)).store,
            *final(layout) == step_key(self@, code, old(store)@, *old(layout)).layout,
            reaction@ == step_key(self@, code, old(store)@, *old(layout)).reaction,
    {
        match self.lookup(code) {
            Some(effect) => perform(effect, store, layout),
            None => Reaction::PassOn,
        }
    }

    /// Binds `code` to `effect`.
    fn bind(&mut self, code: KeyCode, effect: Effect)
        requires
            old(self).wf(),
        ensures
            final(self).wf(),
            final(self)@ == bound(old(self)@, code, effect@),
    {
        proof {
            lemma_bound(self@, code, effect@);
        }
        match self.position(code) {
            Some(i) => {
                self.entries.set(i, DispatchEntry { code, effect });
            },
            None => {
                self.entries.push(DispatchEntry { code, effect });
            },
        }
        assert(self@ =~= bound(old(self)@, code, effect@));
    }
}

impl BindingTable {
    /// Builds the dispatch table from what the display server made of each
    /// chord: `codes[i]` is the key code of the chord at position `i`, or
    /// `None` if that chord did not parse. One chord that did not parse, or
    /// was not answered for, fails the whole table, and the error names the
    /// first such position.
    pub fn with_key_codes(&self, codes: &Vec<Option<KeyCode>>) -> (r: Result<
        DispatchTable,
        KeyError,
    >)
        ensures
            match r {
                Ok(table) => all_parsed(codes@, self@.len() as int) && table.wf() && table@
                    == dispatched(self@, codes@, self@.len()),
                Err(KeyError::UnparsableKey(at)) => at < self@.len() && outcome_at(
                    codes@,
                    at as int,
                ) is None && all_parsed(codes@, at as int),
            },
    {
        let n = self.len();
        let mut table = DispatchTable { entries: Vec::new() };
        assert(table@ =~= Seq::<DispatchView>::empty());
        let mut i: usize = 0;
        while i < n
            invariant
                n == self@.len(),
                i <= n,
                all_parsed(codes@, i as int),
                table.wf(),
                table@ == dispatched(self@, codes@, i as nat),
            decreases n - i,
        {
            if i >= codes.len() {
                return Err(KeyError::UnparsableKey(i));
            }
            match codes[i] {
                Some(code) => {
                    assert(outcome_at(codes@, i as int) == Some(code));
                    if let Some(entry) = self.entry(i) {
                        table.bind(code, entry.effect.duplicate());
                    }
                },
                None => {
                    return Err(KeyError::UnparsableKey(i));
                },
            }
            i = i + 1;
        }
        Ok(table)
    }
}

} // verus!
