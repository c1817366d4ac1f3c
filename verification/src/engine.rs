//! The remap engine: a state machine from key events to logical actions.
//!
//! For every key that is physically down the engine remembers what the key
//! was pressed as. That decision is taken once, when the key goes down, and
//! replayed when it comes up, whatever has happened to the focus in between.

use crate::focus::FocusSnapshot;
use crate::keys::{CommandKind, KeyIdentity, MappingEntry, RemapTarget};
use crate::mapping::{
    distinct_keys, entries_map, lemma_entries_map_keys, lemma_entries_map_len,
    lemma_entries_map_push, lemma_entries_map_remove, lemma_entries_map_value, resolve,
    MappingTable,
};
use crate::policy::{is_suppressed, suppressed_by};
use vstd::prelude::*;

verus! {

/// A raw event on a physical key.
#[derive(Clone, Copy, Debug, PartialEq, Eq, Hash, Structural)]
pub enum KeyEvent {
    Pressed(KeyIdentity),
    Released(KeyIdentity),
}

/// What the engine asks to be done.
#[derive(Clone, Copy, Debug, PartialEq, Eq, Hash, Structural)]
pub enum LogicalAction {
    /// Send a key down (`pressed`) or up.
    EmitKey { id: KeyIdentity, pressed: bool },
    /// Issue a media command, once.
    MediaCommand(CommandKind),
}

/// What the engine remembers of a key that is down: the target its press was
/// given.
#[derive(Clone, Copy, Debug, PartialEq, Eq, Hash, Structural)]
pub struct KeyRuntimeState {
    pub key: KeyIdentity,
    pub target: RemapTarget,
}

/// An event together with the answer of the suppression policy at the moment
/// the event arrives.
#[derive(Clone, Copy, Debug, PartialEq, Eq, Hash, Structural)]
pub struct EngineInput {
    pub event: KeyEvent,
    pub suppressed: bool,
}

/// The target that a press of `id` is given.
pub open spec fn choose_target(
    mapping: Map<KeyIdentity, RemapTarget>,
    id: KeyIdentity,
    suppressed: bool,
) -> RemapTarget {
    if suppressed {
        RemapTarget::Passthrough
    } else {
        resolve(mapping, id)
    }
}

/// The action of a first press of `id` with the given target.
pub open spec fn press_action(id: KeyIdentity, target: RemapTarget) -> Option<LogicalAction> {
    match target {
        RemapTarget::Passthrough => Some(LogicalAction::EmitKey { id, pressed: true }),
        RemapTarget::EmitKey(other) => Some(LogicalAction::EmitKey { id: other, pressed: true }),
        RemapTarget::MediaCommand(kind) => Some(LogicalAction::MediaCommand(kind)),
    }
}

/// The action of a further press of `id` while it is down: keys repeat, media
/// commands do not.
pub open spec fn repeat_action(id: KeyIdentity, target: RemapTarget) -> Option<LogicalAction> {
    match target {
        RemapTarget::MediaCommand(_) => None,
        _ => press_action(id, target),
    }
}

/// The action of the release of `id`, which was pressed with the given target.
pub open spec fn release_action(id: KeyIdentity, target: RemapTarget) -> Option<LogicalAction> {
    match target {
        RemapTarget::Passthrough => Some(LogicalAction::EmitKey { id, pressed: false }),
        RemapTarget::EmitKey(other) => Some(LogicalAction::EmitKey { id: other, pressed: false }),
        RemapTarget::MediaCommand(_) => None,
    }
}

/// One transition: the keys that are down afterwards, each with its target,
/// and the action to take.
pub open spec fn step(
    mapping: Map<KeyIdentity, RemapTarget>,
    pinned: Map<KeyIdentity, RemapTarget>,
    input: EngineInput,
) -> (Map<KeyIdentity, RemapTarget>, Option<LogicalAction>) {
    match input.event {
        KeyEvent::Pressed(id) => {
            if pinned.contains_key(id) {
                (pinned, repeat_action(id, pinned[id]))
            } else {
                let target = choose_target(mapping, id, input.suppressed);
                (pinned.insert(id, target), press_action(id, target))
            }
        },
        KeyEvent::Released(id) => {
            if pinned.contains_key(id) {
                (pinned.remove(id), release_action(id, pinned[id]))
            } else {
                (pinned, None)
            }
        },
    }
}

/// The actions of an optional action, as a sequence.
pub open spec fn action_seq(action: Option<LogicalAction>) -> Seq<LogicalAction> {
    match action {
        Some(a) => seq![a],
        None => Seq::empty(),
    }
}

/// A whole stream, processed in order of arrival: the keys that are down at
/// the end, and all actions in the order they were asked for.
pub open spec fn run(
    mapping: Map<KeyIdentity, RemapTarget>,
    pinned: Map<KeyIdentity, RemapTarget>,
    inputs: Seq<EngineInput>,
) -> (Map<KeyIdentity, RemapTarget>, Seq<LogicalAction>)
    decreases inputs.len(),
{
    if inputs.len() == 0 {
        (pinned, Seq::empty())
    } else {
        let before = run(mapping, pinned, inputs.drop_last());
        let last = step(mapping, before.0, inputs.last());
        (last.0, before.1 + action_seq(last.1))
    }
}

/// The events of a stream that all arrive under one answer of the
/// suppression policy.
pub open spec fn with_suppression(events: Seq<KeyEvent>, suppressed: bool) -> Seq<EngineInput> {
    events.map_values(|event: KeyEvent| EngineInput { event, suppressed })
}

impl KeyRuntimeState {
    spec fn entry(self) -> MappingEntry {
        MappingEntry { key: self.key, target: self.target }
    }
}

/// The runtime states as the entries of an association.
spec fn states_entries(states: Seq<KeyRuntimeState>) -> Seq<MappingEntry> {
    states.map_values(|state: KeyRuntimeState| state.entry())
}

/// The remap engine: a mapping table and the keys that are down.
#[derive(Debug)]
pub struct RemapEngine {
    table: MappingTable,
    held: Vec<KeyRuntimeState>,
}

impl RemapEngine {
    /// No key is recorded as down more than once.
    #[verifier::type_invariant]
    spec fn well_formed(self) -> bool {
        distinct_keys(states_entries(self.held@))
    }

    /// The mapping that the engine consults.
    pub closed spec fn mapping(self) -> Map<KeyIdentity, RemapTarget> {
        self.table@
    }

    /// The keys that are down, each with the target its press was given.
    pub closed spec fn pinned(self) -> Map<KeyIdentity, RemapTarget> {
        entries_map(states_entries(self.held@))
    }

    /// An engine over the given table, with no key down.
    pub fn new(table: MappingTable) -> (engine: RemapEngine)
        ensures
            engine.mapping() == table@,
            engine.pinned() == Map::<KeyIdentity, RemapTarget>::empty(),
    {
        let held: Vec<KeyRuntimeState> = Vec::new();
        assert(states_entries(held@) =~= Seq::<MappingEntry>::empty());
        RemapEngine { table, held }
    }

    fn position(&self, id: KeyIdentity) -> (r: Option<usize>)
        ensures
            r is Some <==> self.pinned().contains_key(id),
            r matches Some(i) ==> i < self.held.len() && self.held[i as int].key == id
                && self.pinned()[id] == self.held[i as int].target,
    {
        let ghost entries = states_entries(self.held@);
        proof {
            use_type_invariant(self);
            lemma_entries_map_keys(entries, id);
        }
        let n = self.held.len();
        let mut i: usize = 0;
        while i < n
            invariant
                n == self.held.len(),
                i <= n,
                entries == states_entries(self.held@),
                distinct_keys(entries),
                forall|w: int| 0 <= w < i ==> #[trigger] entries[w].key != id,
            decreases n - i,
        {
            if self.held[i].key == id {
                proof {
                    lemma_entries_map_value(entries, i as int);
                }
                return Some(i);
            }
            i = i + 1;
        }
        None
    }

    /// The target that the key was pressed with, if the key is down.
    pub fn pinned_target(&self, id: KeyIdentity) -> (r: Option<RemapTarget>)
        ensures
            r == (if self.pinned().contains_key(id) {
                Some(self.pinned()[id])
            } else {
                None
            }),
    {
        match self.position(id) {
            Some(i) => Some(self.held[i].target),
            None => None,
        }
    }

    /// How many keys are down.
    pub fn held_count(&self) -> (n: usize)
        ensures
            self.pinned().dom().finite(),
            n == self.pinned().dom().len(),
    {
        proof {
            use_type_invariant(self);
            lemma_entries_map_len(states_entries(self.held@));
        }
        self.held.len()
    }

    /// Takes the record of the keys that are down out of the engine, to be
    /// changed and put back.
    fn take_held(&mut self) -> (held: Vec<KeyRuntimeState>)
        ensures
            held == old(self).held,
            final(self).table == old(self).table,
            final(self).held@.len() == 0,
    {
        let mut held: Vec<KeyRuntimeState> = Vec::new();
        assert(states_entries(held@) =~= Seq::<MappingEntry>::empty());
        std::mem::swap(&mut self.held, &mut held);
        held
    }

    /// Processes one event. `suppressed` is the answer of the suppression
    /// policy now; it is consulted only when a key goes down that was up.
    pub fn handle(&mut self, event: KeyEvent, suppressed: bool) -> (action: Option<LogicalAction>)
        ensures
            final(self).mapping() == old(self).mapping(),
            (final(self).pinned(), action) == step(
                old(self).mapping(),
                old(self).pinned(),
                EngineInput { event, suppressed },
            ),
    {
        let ghost entries = states_entries(self.held@);
        proof {
            use_type_invariant(&*self);
        }
        match event {
            KeyEvent::Pressed(id) => {
                match self.position(id) {
                    Some(i) => repeat_of(id, self.held[i].target),
                    None => {
                        let target = if suppressed {
                            RemapTarget::Passthrough
                        } else {
                            self.table.lookup(id)
                        };
                        let state = KeyRuntimeState { key: id, target };
                        proof {
                            lemma_entries_map_push(entries, state.entry());
                            assert(states_entries(self.held@.push(state)) =~= entries.push(
                                state.entry(),
                            ));
                        }
                        let mut held = self.take_held();
                        held.push(state);
                        self.held = held;
                        press_of(id, target)
                    },
                }
            },
            KeyEvent::Released(id) => {
                match self.position(id) {
                    Some(i) => {
                        proof {
                            lemma_entries_map_remove(entries, i as int);
                            assert(states_entries(self.held@.remove(i as int)) =~= entries.remove(
                                i as int,
                            ));
                        }
                        let mut held = self.take_held();
                        let state = held.remove(i);
                        self.held = held;
                        release_of(id, state.target)
                    },
                    None => None,
                }
            },
        }
    }

    /// Processes one event while `focus` is what is known of the focused
    /// window. The suppression policy is asked only when a key goes down that
    /// was up: nothing else depends on its answer.
    pub fn handle_in_focus(&mut self, event: KeyEvent, focus: Option<&FocusSnapshot>) -> (action:
        Option<LogicalAction>)
        ensures
            final(self).mapping() == old(self).mapping(),
            (final(self).pinned(), action) == step(
                old(self).mapping(),
                old(self).pinned(),
                EngineInput {
                    event,
                    suppressed: suppressed_by(
                        match focus {
                            Some(s) => Some(*s),
                            None => None,
                        },
                    ),
                },
            ),
    {
        let suppressed = match event {
            KeyEvent::Pressed(id) => self.position(id).is_none() && is_suppressed(focus),
            KeyEvent::Released(_) => false,
        };
        self.handle(event, suppressed)
    }

    /// Processes a stream of events that all arrive under one answer of the
    /// suppression policy, in order, and returns the actions in order.
    pub fn handle_all(&mut self, events: &[KeyEvent], suppressed: bool) -> (actions: Vec<
        LogicalAction,
    >)
        ensures
            final(self).mapping() == old(self).mapping(),
            (final(self).pinned(), actions@) == run(
                old(self).mapping(),
                old(self).pinned(),
                with_suppression(events@, suppressed),
            ),
    {
        let ghost inputs = with_suppression(events@, suppressed);
        let mut actions: Vec<LogicalAction> = Vec::new();
        let n = events.len();
        let mut i: usize = 0;
        while i < n
            invariant
                n == events.len(),
                i <= n,
                inputs == with_suppression(events@, suppressed),
                self.mapping() == old(self).mapping(),
                (self.pinned(), actions@) == run(
                    old(self).mapping(),
                    old(self).pinned(),
                    inputs.take(i as int),
                ),
            decreases n - i,
        {
            proof {
                assert(inputs.take(i + 1).drop_last() =~= inputs.take(i as int));
                assert(inputs.take(i + 1).last() == EngineInput { event: events[i as int], suppressed });
            }
            match self.handle(events[i], suppressed) {
                Some(action) => {
                    actions.push(action);
                },
                None => {
                    assert(actions@ + Seq::<LogicalAction>::empty() =~= actions@);
                },
            }
            i = i + 1;
        }
        proof {
            assert(inputs.take(n as int) =~= inputs);
        }
        actions
    }
}

fn press_of(id: KeyIdentity, target: RemapTarget) -> (action: Option<LogicalAction>)
    ensures
        action == press_action(id, target),
{
    match target {
        RemapTarget::Passthrough => Some(LogicalAction::EmitKey { id, pressed: true }),
        RemapTarget::EmitKey(other) => Some(LogicalAction::EmitKey { id: other, pressed: true }),
        RemapTarget::MediaCommand(kind) => Some(LogicalAction::MediaCommand(kind)),
    }
}

fn repeat_of(id: KeyIdentity, target: RemapTarget) -> (action: Option<LogicalAction>)
    ensures
        action == repeat_action(id, target),
{
    match target {
        RemapTarget::MediaCommand(_) => None,
        _ => press_of(id, target),
    }
}

fn release_of(id: KeyIdentity, target: RemapTarget) -> (action: Option<LogicalAction>)
    ensures
        action == release_action(id, target),
{
    match target {
        RemapTarget::Passthrough => Some(LogicalAction::EmitKey { id, pressed: false }),
        RemapTarget::EmitKey(other) => Some(LogicalAction::EmitKey { id: other, pressed: false }),
        RemapTarget::MediaCommand(_) => None,
    }
}

} // verus!
