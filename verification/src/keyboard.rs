//! A keyboard on a switch matrix: the remap engine in front of a keyberon
//! layout.
//!
//! Events of the matrix go through the engine. The keys that the engine asks
//! for are handed to the layout, which turns matrix positions into key codes;
//! what the layout cannot take, media commands above all, is handed back to
//! the caller.

use crate::backend::{fed, plain_layers, ticked, MatrixEvent, PlainLayout};
use crate::engine::{run, with_suppression, KeyEvent, LogicalAction, RemapEngine};
use crate::focus::{due, recorded, FocusCache, FocusSnapshot};
use crate::keys::{KeyCode, KeyIdentity, RemapTarget};
use crate::layout::{standard_mapping, standard_table};
use crate::policy::{is_suppressed, suppressed_by};
use crate::window::WindowInfo;
use keyberon::action::Action;
use vstd::prelude::*;

verus! {

/// Row of the matrix whose keys exist only to be sent by the engine.
pub const EMIT_ROW: u8 = 8;

/// Where on the matrix the key stands that the engine sends for this key
/// code: a column of the row that is kept for such keys.
pub open spec fn emit_position(code: KeyCode) -> Option<(u8, u8)> {
    match code {
        KeyCode::UpArrow => Some((EMIT_ROW, 0u8)),
        KeyCode::LeftArrow => Some((EMIT_ROW, 1u8)),
        KeyCode::DownArrow => Some((EMIT_ROW, 2u8)),
        KeyCode::RightArrow => Some((EMIT_ROW, 3u8)),
        KeyCode::VolumeUp => Some((EMIT_ROW, 4u8)),
        KeyCode::VolumeDown => Some((EMIT_ROW, 5u8)),
        KeyCode::VolumeMute => Some((EMIT_ROW, 6u8)),
        _ => None,
    }
}

/// The matrix event that carries out an action, where there is one: a key
/// that has a place on the matrix is pressed or released there.
pub open spec fn routed(action: LogicalAction) -> Option<MatrixEvent> {
    match action {
        LogicalAction::EmitKey { id: KeyIdentity::MatrixPosition { row, col }, pressed } => Some(
            MatrixEvent { pressed, row, col },
        ),
        LogicalAction::EmitKey { id: KeyIdentity::PhysicalKeyCode(code), pressed } => {
            match emit_position(code) {
                Some(position) => Some(MatrixEvent { pressed, row: position.0, col: position.1 }),
                None => None,
            }
        },
        LogicalAction::MediaCommand(_) => None,
    }
}

/// The matrix events of the actions that the layout can take, in order.
pub open spec fn forwarded_of(actions: Seq<LogicalAction>) -> Seq<MatrixEvent>
    decreases actions.len(),
{
    if actions.len() == 0 {
        Seq::empty()
    } else {
        match routed(actions.last()) {
            Some(event) => forwarded_of(actions.drop_last()).push(event),
            None => forwarded_of(actions.drop_last()),
        }
    }
}

/// The actions that the layout cannot take, in order.
pub open spec fn deferred_of(actions: Seq<LogicalAction>) -> Seq<LogicalAction>
    decreases actions.len(),
{
    if actions.len() == 0 {
        Seq::empty()
    } else {
        match routed(actions.last()) {
            Some(_) => deferred_of(actions.drop_last()),
            None => deferred_of(actions.drop_last()).push(actions.last()),
        }
    }
}

/// Where on the matrix the key for a key code stands, if it has a place.
pub fn emit_position_of(code: KeyCode) -> (position: Option<(u8, u8)>)
    ensures
        position == emit_position(code),
{
    match code {
        KeyCode::UpArrow => Some((EMIT_ROW, 0u8)),
        KeyCode::LeftArrow => Some((EMIT_ROW, 1u8)),
        KeyCode::DownArrow => Some((EMIT_ROW, 2u8)),
        KeyCode::RightArrow => Some((EMIT_ROW, 3u8)),
        KeyCode::VolumeUp => Some((EMIT_ROW, 4u8)),
        KeyCode::VolumeDown => Some((EMIT_ROW, 5u8)),
        KeyCode::VolumeMute => Some((EMIT_ROW, 6u8)),
        _ => None,
    }
}

/// The matrix event that carries out an action, where there is one.
pub fn route(action: LogicalAction) -> (event: Option<MatrixEvent>)
    ensures
        event == routed(action),
{
    match action {
        LogicalAction::EmitKey { id, pressed } => match id {
            KeyIdentity::MatrixPosition { row, col } => Some(MatrixEvent { pressed, row, col }),
            KeyIdentity::PhysicalKeyCode(code) => match emit_position_of(code) {
                Some(position) => Some(MatrixEvent { pressed, row: position.0, col: position.1 }),
                None => None,
            },
        },
        LogicalAction::MediaCommand(_) => None,
    }
}

/// A keyboard: a layout, the remap engine in front of it, and the focus
/// cache that the engine's suppression policy looks at.
pub struct Keyboard {
    layout: PlainLayout,
    engine: RemapEngine,
    focus: FocusCache,
}

impl Keyboard {
    /// The mapping that the engine consults.
    pub closed spec fn mapping(self) -> Map<KeyIdentity, RemapTarget> {
        self.engine.mapping()
    }

    /// The keys that are down, each with the target its press was given.
    pub closed spec fn pinned(self) -> Map<KeyIdentity, RemapTarget> {
        self.engine.pinned()
    }

    /// What is known of the focused window.
    pub closed spec fn snapshot(self) -> Option<FocusSnapshot> {
        self.focus.snapshot()
    }

    /// When the window system was last asked.
    pub closed spec fn refreshed_at(self) -> u64 {
        self.focus.refreshed_at()
    }

    /// The events that the layout has taken and not yet worked off.
    pub closed spec fn backlog(self) -> Seq<MatrixEvent> {
        self.layout.backlog()
    }

    /// The USB HID report of the keys that the layout holds down.
    pub closed spec fn report(self) -> Seq<u8> {
        self.layout.report()
    }

    /// A keyboard over a layout of the given layers, with the standard
    /// remapping, no key down, nothing waiting in the layout and nothing
    /// known of the focus. Layers that hold anything but key codes are
    /// refused.
    pub fn new(layers: &'static [&'static [&'static [Action]]], now: u64) -> (keyboard: Option<
        Keyboard,
    >)
        ensures
            keyboard is Some <==> plain_layers(layers),
            keyboard matches Some(k) ==> {
                &&& k.mapping() == standard_mapping()
                &&& k.pinned() == Map::<KeyIdentity, RemapTarget>::empty()
                &&& k.snapshot() is None
                &&& k.refreshed_at() == now
                &&& k.backlog() == Seq::<MatrixEvent>::empty()
                &&& k.report() == Seq::new(8, |i: int| 0u8)
            },
    {
        match PlainLayout::new(layers) {
            Some(layout) => Some(
                Keyboard {
                    layout,
                    engine: RemapEngine::new(standard_table()),
                    focus: FocusCache::new(now),
                },
            ),
            None => None,
        }
    }

    /// Whether it is time to ask the window system for the focus again.
    pub fn refresh_due(&self, now: u64) -> (r: bool)
        ensures
            r == due(self.refreshed_at(), now),
    {
        self.focus.refresh_due(now)
    }

    /// Takes the outcome of asking the window system at `now`. A failure
    /// leaves what was known of the focus.
    pub fn record_focus(&mut self, now: u64, outcome: Option<WindowInfo>)
        ensures
            final(self).mapping() == old(self).mapping(),
            final(self).pinned() == old(self).pinned(),
            final(self).backlog() == old(self).backlog(),
            final(self).report() == old(self).report(),
            final(self).refreshed_at() == now,
            final(self).snapshot() == recorded(old(self).snapshot(), now, outcome),
    {
        self.focus.record(now, outcome);
    }

    /// Processes the events of one scan of the matrix, in order, then lets
    /// the layout tick once.
    ///
    /// The suppression policy is asked once, on what is known of the focus
    /// now. Each action of the engine that has a place on the matrix goes to
    /// the layout; the others are returned, in order, for the caller to
    /// carry out.
    pub fn update(&mut self, events: &[KeyEvent]) -> (deferred: Vec<LogicalAction>)
        ensures
            final(self).mapping() == old(self).mapping(),
            final(self).snapshot() == old(self).snapshot(),
            final(self).refreshed_at() == old(self).refreshed_at(),
            ({
                let outcome = run(
                    old(self).mapping(),
                    old(self).pinned(),
                    with_suppression(events@, suppressed_by(old(self).snapshot())),
                );
                &&& final(self).pinned() == outcome.0
                &&& deferred@ == deferred_of(outcome.1)
                &&& final(self).backlog() == ticked(
                    fed(old(self).backlog(), forwarded_of(outcome.1)),
                )
            }),
    {
        let suppressed = is_suppressed(self.focus.current_focus());
        let actions = self.engine.handle_all(events, suppressed);
        let ghost backlog = self.layout.backlog();
        let ghost engine = self.engine;
        let mut deferred: Vec<LogicalAction> = Vec::new();
        let n = actions.len();
        let mut i: usize = 0;
        while i < n
            invariant
                n == actions.len(),
                i <= n,
                self.engine == engine,
                self.focus == old(self).focus,
                deferred@ == deferred_of(actions@.take(i as int)),
                self.layout.backlog() == fed(backlog, forwarded_of(actions@.take(i as int))),
            decreases n - i,
        {
            proof {
                assert(actions@.take(i + 1).drop_last() =~= actions@.take(i as int));
                assert(actions@.take(i + 1).last() == actions[i as int]);
                let sent = forwarded_of(actions@.take(i as int));
                if let Some(event) = routed(actions[i as int]) {
                    assert(sent.push(event).drop_last() =~= sent);
                }
            }
            match route(actions[i]) {
                Some(event) => {
                    self.layout.event(event);
                },
                None => {
                    deferred.push(actions[i]);
                },
            }
            i = i + 1;
        }
        proof {
            assert(actions@.take(n as int) =~= actions@);
        }
        self.layout.tick();
        deferred
    }

    /// The USB HID report of the keys that the layout holds down: eight
    /// bytes.
    pub fn get_report(&self) -> (bytes: Vec<u8>)
        ensures
            bytes@ == self.report(),
            bytes@.len() == 8,
    {
        self.layout.report_bytes()
    }
}

} // verus!
