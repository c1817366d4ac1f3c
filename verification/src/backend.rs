//! The keyberon layout behind the keyboard, and what is taken on trust of it.
//!
//! A keyberon `Layout` turns events on a switch matrix into the key codes of
//! a USB report. Events wait in a queue of sixteen inside the layout, and
//! each tick works one of them off. The library hands the layout only layers
//! that it has looked through: with layers that hold nothing but key codes a
//! layout never waits on a held key and never changes layer, and keyberon's
//! `event` and `tick` cannot panic.

use keyberon::action::Action;
use keyberon::layout::{Event, Layout};
use vstd::prelude::*;

verus! {

/// How many events a layout holds back at most.
pub const BACKLOG_LIMIT: usize = 16;

/// keyberon's `Layout`, of which nothing is known but what the items below
/// say.
#[verifier::external_type_specification]
#[verifier::external_body]
pub struct ExLayout(keyberon::layout::Layout);

/// keyberon's `Action`, an entry of a layer.
#[verifier::external_type_specification]
#[verifier::external_body]
pub struct ExAction(keyberon::action::Action);

/// An event on the switch matrix, as a layout takes it.
#[derive(Clone, Copy, Debug, PartialEq, Eq, Hash, Structural)]
pub struct MatrixEvent {
    pub pressed: bool,
    pub row: u8,
    pub col: u8,
}

/// Whether an action of a layer is nothing but key codes: the variant
/// `NoOp`, `Trans`, `KeyCode` or `MultipleKeyCodes` of keyberon's `Action`.
pub uninterp spec fn action_plain(action: Action) -> bool;

/// The events that a layout has taken through `Layout::event` and not yet
/// worked off, oldest first: the queue inside keyberon's `Layout`.
pub uninterp spec fn layout_backlog(layout: Layout) -> Seq<MatrixEvent>;

/// Whether every action in the layers that a layout was made with, by
/// `Layout::new`, is plain.
pub uninterp spec fn layout_plain(layout: Layout) -> bool;

/// The USB HID report of the keys that a layout holds down: the bytes of the
/// `KbHidReport` that the key codes of `Layout::keycodes` make.
pub uninterp spec fn layout_report(layout: Layout) -> Seq<u8>;

/// Every action in the layers is plain.
pub open spec fn plain_layers(layers: &[&[&[Action]]]) -> bool {
    forall|l: int, i: int, j: int|
        0 <= l < layers@.len() && 0 <= i < layers@[l]@.len() && 0 <= j < layers@[l]@[i]@.len()
            ==> action_plain(#[trigger] layers@[l]@[i]@[j])
}

/// The backlog after one more event: the event goes to the back, and where
/// the backlog is full its oldest event leaves at the front.
pub open spec fn queued(backlog: Seq<MatrixEvent>, event: MatrixEvent) -> Seq<MatrixEvent> {
    if backlog.len() >= BACKLOG_LIMIT {
        backlog.drop_first().push(event)
    } else {
        backlog.push(event)
    }
}

/// The backlog after a tick: its oldest event, if it has one, is worked off.
pub open spec fn ticked(backlog: Seq<MatrixEvent>) -> Seq<MatrixEvent> {
    if backlog.len() > 0 {
        backlog.drop_first()
    } else {
        backlog
    }
}

/// The backlog after a series of events.
pub open spec fn fed(backlog: Seq<MatrixEvent>, events: Seq<MatrixEvent>) -> Seq<MatrixEvent>
    decreases events.len(),
{
    if events.len() == 0 {
        backlog
    } else {
        queued(fed(backlog, events.drop_last()), events.last())
    }
}

/// Tells the variants of keyberon's `Action` apart: whether the action is
/// `NoOp`, `Trans`, `KeyCode` or `MultipleKeyCodes`.
#[verifier::external_body]
fn action_is_plain(action: &Action) -> (r: bool)
    ensures
        r == action_plain(*action),
{
    matches!(
        action,
        Action::NoOp | Action::Trans | Action::KeyCode(_) | Action::MultipleKeyCodes(_)
    )
}

/// `Layout::new` of keyberon: a layout over the given layers, with an empty
/// queue and no key held, so that its report is eight zero bytes.
#[verifier::external_body]
fn layout_new(layers: &'static [&'static [&'static [Action]]]) -> (layout: Layout)
    ensures
        layout_plain(layout) == plain_layers(layers),
        layout_backlog(layout) == Seq::<MatrixEvent>::empty(),
        layout_report(layout) == Seq::new(8, |i: int| 0u8),
{
    Layout::new(layers)
}

/// `Layout::event` of keyberon, on a layout of plain layers. The event is put
/// at the back of the layout's queue of sixteen; from a full queue the oldest
/// event is taken out and worked off first. The layers stay what they are,
/// and on plain layers the call does not panic.
#[verifier::external_body]
fn layout_event(layout: &mut Layout, event: MatrixEvent)
    requires
        layout_plain(*old(layout)),
    ensures
        layout_plain(*final(layout)),
        layout_backlog(*final(layout)) == queued(layout_backlog(*old(layout)), event),
    no_unwind
{
    let _ = layout.event(
        if event.pressed {
            Event::Press(event.row, event.col)
        } else {
            Event::Release(event.row, event.col)
        },
    );
}

/// `Layout::tick` of keyberon, on a layout of plain layers: the oldest event
/// of the queue, if there is one, is taken out and worked off. On plain
/// layers the call does not panic.
#[verifier::external_body]
fn layout_tick(layout: &mut Layout)
    requires
        layout_plain(*old(layout)),
    ensures
        layout_plain(*final(layout)),
        layout_backlog(*final(layout)) == ticked(layout_backlog(*old(layout))),
    no_unwind
{
    let _ = layout.tick();
}

/// `Layout::keycodes` of keyberon, collected into a `KbHidReport`: the eight
/// bytes of the report of the keys that the layout holds down.
#[verifier::external_body]
fn layout_report_bytes(layout: &Layout) -> (bytes: Vec<u8>)
    ensures
        bytes@ == layout_report(*layout),
        bytes@.len() == 8,
{
    let report: keyberon::key_code::KbHidReport = layout.keycodes().collect();
    report.as_bytes().to_vec()
}

/// Whether every action in the layers is plain.
pub fn layers_are_plain(layers: &[&[&[Action]]]) -> (r: bool)
    ensures
        r == plain_layers(layers),
{
    let mut l: usize = 0;
    while l < layers.len()
        invariant
            l <= layers@.len(),
            forall|a: int, i: int, j: int|
                0 <= a < l && 0 <= i < layers@[a]@.len() && 0 <= j < layers@[a]@[i]@.len()
                    ==> action_plain(#[trigger] layers@[a]@[i]@[j]),
        decreases layers@.len() - l,
    {
        let layer = layers[l];
        let mut i: usize = 0;
        while i < layer.len()
            invariant
                l < layers@.len(),
                layer == layers@[l as int],
                i <= layer@.len(),
                forall|b: int, j: int|
                    0 <= b < i && 0 <= j < layer@[b]@.len() ==> action_plain(
                        #[trigger] layer@[b]@[j],
                    ),
            decreases layer@.len() - i,
        {
            let row = layer[i];
            let mut j: usize = 0;
            while j < row.len()
                invariant
                    l < layers@.len(),
                    layer == layers@[l as int],
                    i < layer@.len(),
                    row == layer@[i as int],
                    j <= row@.len(),
                    forall|c: int| 0 <= c < j ==> action_plain(#[trigger] row@[c]),
                decreases row@.len() - j,
            {
                if !action_is_plain(&row[j]) {
                    assert(!action_plain(layers@[l as int]@[i as int]@[j as int]));
                    return false;
                }
                j = j + 1;
            }
            i = i + 1;
        }
        l = l + 1;
    }
    true
}

/// A keyberon layout over layers that hold nothing but key codes.
pub struct PlainLayout {
    layout: Layout,
}

impl PlainLayout {
    #[verifier::type_invariant]
    spec fn well_formed(self) -> bool {
        layout_plain(self.layout)
    }

    /// The events that the layout has taken and not yet worked off, oldest
    /// first.
    pub closed spec fn backlog(self) -> Seq<MatrixEvent> {
        layout_backlog(self.layout)
    }

    /// The USB HID report of the keys that the layout holds down.
    pub closed spec fn report(self) -> Seq<u8> {
        layout_report(self.layout)
    }

    /// A layout over the given layers, with nothing waiting and no key held.
    /// Layers that hold anything but key codes are refused.
    pub fn new(layers: &'static [&'static [&'static [Action]]]) -> (layout: Option<PlainLayout>)
        ensures
            layout is Some <==> plain_layers(layers),
            layout matches Some(l) ==> l.backlog() == Seq::<MatrixEvent>::empty() && l.report()
                == Seq::new(8, |i: int| 0u8),
    {
        if layers_are_plain(layers) {
            Some(PlainLayout { layout: layout_new(layers) })
        } else {
            None
        }
    }

    /// Hands the layout an event of the matrix.
    pub fn event(&mut self, event: MatrixEvent)
        ensures
            final(self).backlog() == queued(old(self).backlog(), event),
    {
        proof {
            use_type_invariant(&*self);
        }
        layout_event(&mut self.layout, event);
    }

    /// Lets the layout work off its oldest event.
    pub fn tick(&mut self)
        ensures
            final(self).backlog() == ticked(old(self).backlog()),
    {
        proof {
            use_type_invariant(&*self);
        }
        layout_tick(&mut self.layout);
    }

    /// The USB HID report of the keys that the layout holds down: eight
    /// bytes.
    pub fn report_bytes(&self) -> (bytes: Vec<u8>)
        ensures
            bytes@ == self.report(),
            bytes@.len() == 8,
    {
        layout_report_bytes(&self.layout)
    }
}

} // verus!
