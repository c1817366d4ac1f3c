//! What holds of the remap engine on every stream of events, and of the
//! focus cache on every series of answers.

use crate::backend::MatrixEvent;
use crate::engine::{
    action_seq, choose_target, press_action, release_action, run, step, EngineInput, KeyEvent,
    LogicalAction,
};
use crate::focus::{recorded, recorded_all, FocusSnapshot};
use crate::keyboard::{emit_position, forwarded_of, routed};
use crate::keys::{KeyIdentity, RemapTarget};
use crate::mapping::resolve;
use crate::policy::suppressed_by;
use crate::window::WindowInfo;
use vstd::prelude::*;

verus! {

/// How often a value occurs in a sequence.
pub open spec fn occurrences<T>(items: Seq<T>, item: T) -> nat
    decreases items.len(),
{
    if items.len() == 0 {
        0
    } else {
        occurrences(items.drop_last(), item) + if items.last() == item {
            1nat
        } else {
            0nat
        }
    }
}

/// Whether the action sends a key of the wanted kind down (`pressed`) or up.
pub open spec fn sends(
    action: LogicalAction,
    pressed: bool,
    wanted: spec_fn(KeyIdentity) -> bool,
) -> bool {
    match action {
        LogicalAction::EmitKey { id, pressed: p } => p == pressed && wanted(id),
        LogicalAction::MediaCommand(_) => false,
    }
}

/// How often the actions send a key of the wanted kind down (`pressed`) or
/// up.
pub open spec fn emissions(
    actions: Seq<LogicalAction>,
    pressed: bool,
    wanted: spec_fn(KeyIdentity) -> bool,
) -> nat
    decreases actions.len(),
{
    if actions.len() == 0 {
        0
    } else {
        emissions(actions.drop_last(), pressed, wanted) + if sends(
            actions.last(),
            pressed,
            wanted,
        ) {
            1nat
        } else {
            0nat
        }
    }
}

/// The kind of key that is the one key given.
pub open spec fn is_key(key: KeyIdentity) -> spec_fn(KeyIdentity) -> bool {
    |k: KeyIdentity| k == key
}

/// Where a key stands on the matrix, if it has a place there.
pub open spec fn place_of(id: KeyIdentity) -> Option<(u8, u8)> {
    match id {
        KeyIdentity::MatrixPosition { row, col } => Some((row, col)),
        KeyIdentity::PhysicalKeyCode(code) => emit_position(code),
    }
}

/// The kind of key that stands at the given place of the matrix.
pub open spec fn is_at(row: u8, col: u8) -> spec_fn(KeyIdentity) -> bool {
    |k: KeyIdentity| place_of(k) == Some((row, col))
}

/// The events of a stream of inputs.
pub open spec fn events_of(inputs: Seq<EngineInput>) -> Seq<KeyEvent> {
    inputs.map_values(|input: EngineInput| input.event)
}

/// The keys that are physically down after the events.
pub open spec fn down_after(events: Seq<KeyEvent>) -> Set<KeyIdentity>
    decreases events.len(),
{
    if events.len() == 0 {
        Set::empty()
    } else {
        match events.last() {
            KeyEvent::Pressed(id) => down_after(events.drop_last()).insert(id),
            KeyEvent::Released(id) => down_after(events.drop_last()).remove(id),
        }
    }
}

/// On every key, presses and releases take turns: a key goes down only while
/// it is up, and comes up only while it is down.
pub open spec fn alternating(events: Seq<KeyEvent>) -> bool
    decreases events.len(),
{
    events.len() == 0 || (alternating(events.drop_last()) && match events.last() {
        KeyEvent::Pressed(id) => !down_after(events.drop_last()).contains(id),
        KeyEvent::Released(id) => down_after(events.drop_last()).contains(id),
    })
}

/// The events are pairs of a press and its release: presses and releases take
/// turns on every key, and no key is left down.
pub open spec fn well_paired(events: Seq<KeyEvent>) -> bool {
    alternating(events) && forall|id: KeyIdentity| !down_after(events).contains(id)
}

/// The key whose release a key that is down still owes, given the target it
/// was pressed with.
pub open spec fn owed_key(id: KeyIdentity, target: RemapTarget) -> Option<KeyIdentity> {
    match target {
        RemapTarget::Passthrough => Some(id),
        RemapTarget::EmitKey(other) => Some(other),
        RemapTarget::MediaCommand(_) => None,
    }
}

/// The keys that are down and owe the release of a key of the wanted kind.
pub open spec fn owing(
    pinned: Map<KeyIdentity, RemapTarget>,
    wanted: spec_fn(KeyIdentity) -> bool,
) -> Set<KeyIdentity> {
    pinned.dom().filter(
        |id: KeyIdentity|
            match owed_key(id, pinned[id]) {
                Some(key) => wanted(key),
                None => false,
            },
    )
}

/// The action that sends `key` down.
pub open spec fn key_down(key: KeyIdentity) -> LogicalAction {
    LogicalAction::EmitKey { id: key, pressed: true }
}

/// The action that sends `key` up.
pub open spec fn key_up(key: KeyIdentity) -> LogicalAction {
    LogicalAction::EmitKey { id: key, pressed: false }
}

proof fn lemma_emissions_append(
    actions: Seq<LogicalAction>,
    next: Option<LogicalAction>,
    pressed: bool,
    wanted: spec_fn(KeyIdentity) -> bool,
)
    ensures
        emissions(actions + action_seq(next), pressed, wanted) == emissions(
            actions,
            pressed,
            wanted,
        ) + if next is Some && sends(next->0, pressed, wanted) {
            1nat
        } else {
            0nat
        },
{
    match next {
        Some(a) => {
            assert((actions + seq![a]).drop_last() =~= actions);
            assert((actions + seq![a]).last() == a);
        },
        None => {
            assert(actions + Seq::<LogicalAction>::empty() =~= actions);
        },
    }
}

/// While presses and releases take turns, the engine has exactly the keys
/// pinned that are down, and keys of any one kind have been sent down as
/// often as they have been sent up, but for the releases that the keys still
/// down owe.
pub proof fn lemma_balance(
    mapping: Map<KeyIdentity, RemapTarget>,
    inputs: Seq<EngineInput>,
    wanted: spec_fn(KeyIdentity) -> bool,
)
    requires
        alternating(events_of(inputs)),
    ensures
        run(mapping, Map::empty(), inputs).0.dom() == down_after(events_of(inputs)),
        run(mapping, Map::empty(), inputs).0.dom().finite(),
        emissions(run(mapping, Map::empty(), inputs).1, true, wanted) == emissions(
            run(mapping, Map::empty(), inputs).1,
            false,
            wanted,
        ) + owing(run(mapping, Map::empty(), inputs).0, wanted).len(),
    decreases inputs.len(),
{
    let start = Map::<KeyIdentity, RemapTarget>::empty();
    if inputs.len() == 0 {
        assert(run(mapping, start, inputs).0.dom() =~= down_after(events_of(inputs)));
        assert(owing(start, wanted) =~= Set::<KeyIdentity>::empty());
    } else {
        let earlier = inputs.drop_last();
        let input = inputs.last();
        assert(events_of(inputs).drop_last() =~= events_of(earlier));
        assert(events_of(inputs).last() == input.event);
        lemma_balance(mapping, earlier, wanted);
        let before = run(mapping, start, earlier);
        let after = step(mapping, before.0, input);
        lemma_emissions_append(before.1, after.1, true, wanted);
        lemma_emissions_append(before.1, after.1, false, wanted);
        match input.event {
            KeyEvent::Pressed(id) => {
                let target = choose_target(mapping, id, input.suppressed);
                assert(!before.0.contains_key(id));
                assert(!owing(before.0, wanted).contains(id));
                if owed_key(id, target) is Some && wanted(owed_key(id, target)->0) {
                    assert(owing(after.0, wanted) =~= owing(before.0, wanted).insert(id));
                } else {
                    assert(owing(after.0, wanted) =~= owing(before.0, wanted));
                }
            },
            KeyEvent::Released(id) => {
                assert(before.0.contains_key(id));
                assert(owing(after.0, wanted) =~= owing(before.0, wanted).remove(id));
            },
        }
        assert(after.0.dom() =~= down_after(events_of(inputs)));
    }
}

/// Counting the actions that send one key is counting one action.
pub proof fn lemma_emissions_of_key(actions: Seq<LogicalAction>, pressed: bool, key: KeyIdentity)
    ensures
        emissions(actions, pressed, is_key(key)) == occurrences(
            actions,
            LogicalAction::EmitKey { id: key, pressed },
        ),
    decreases actions.len(),
{
    if actions.len() > 0 {
        lemma_emissions_of_key(actions.drop_last(), pressed, key);
    }
}

/// Counting the actions that send a key at one place of the matrix is
/// counting the events that the layout is handed for that place.
pub proof fn lemma_emissions_at_place(
    actions: Seq<LogicalAction>,
    pressed: bool,
    row: u8,
    col: u8,
)
    ensures
        emissions(actions, pressed, is_at(row, col)) == occurrences(
            forwarded_of(actions),
            MatrixEvent { pressed, row, col },
        ),
    decreases actions.len(),
{
    if actions.len() > 0 {
        lemma_emissions_at_place(actions.drop_last(), pressed, row, col);
        let sent = forwarded_of(actions.drop_last());
        if let Some(event) = routed(actions.last()) {
            assert(sent.push(event).drop_last() =~= sent);
        }
    }
}

/// No stuck keys: over a stream of presses each followed by its release,
/// every key is sent down exactly as often as it is sent up, whatever the
/// suppression policy answered along the way, and no key is left pinned.
pub proof fn lemma_no_stuck_keys(
    mapping: Map<KeyIdentity, RemapTarget>,
    inputs: Seq<EngineInput>,
    key: KeyIdentity,
)
    requires
        well_paired(events_of(inputs)),
    ensures
        run(mapping, Map::empty(), inputs).0 == Map::<KeyIdentity, RemapTarget>::empty(),
        occurrences(run(mapping, Map::empty(), inputs).1, key_down(key)) == occurrences(
            run(mapping, Map::empty(), inputs).1,
            key_up(key),
        ),
{
    lemma_balance(mapping, inputs, is_key(key));
    let end = run(mapping, Map::empty(), inputs);
    assert(end.0.dom() =~= Set::<KeyIdentity>::empty());
    assert(end.0 =~= Map::<KeyIdentity, RemapTarget>::empty());
    assert(owing(end.0, is_key(key)) =~= Set::<KeyIdentity>::empty());
    lemma_emissions_of_key(end.1, true, key);
    lemma_emissions_of_key(end.1, false, key);
}

/// No stuck keys on the matrix: over a stream of presses each followed by
/// its release, a keyboard hands its layout as many presses as releases for
/// every place of the matrix.
pub proof fn lemma_no_stuck_keys_on_the_matrix(
    mapping: Map<KeyIdentity, RemapTarget>,
    inputs: Seq<EngineInput>,
    row: u8,
    col: u8,
)
    requires
        well_paired(events_of(inputs)),
    ensures
        occurrences(
            forwarded_of(run(mapping, Map::empty(), inputs).1),
            MatrixEvent { pressed: true, row, col },
        ) == occurrences(
            forwarded_of(run(mapping, Map::empty(), inputs).1),
            MatrixEvent { pressed: false, row, col },
        ),
{
    lemma_balance(mapping, inputs, is_at(row, col));
    let end = run(mapping, Map::empty(), inputs);
    assert(end.0.dom() =~= Set::<KeyIdentity>::empty());
    assert(owing(end.0, is_at(row, col)) =~= Set::<KeyIdentity>::empty());
    lemma_emissions_at_place(end.1, true, row, col);
    lemma_emissions_at_place(end.1, false, row, col);
}

/// No release of `id` is among the inputs.
pub open spec fn never_released(inputs: Seq<EngineInput>, id: KeyIdentity) -> bool {
    forall|i: int| 0 <= i < inputs.len() ==> (#[trigger] inputs[i]).event != KeyEvent::Released(id)
}

/// A key that is down stays pinned to its target until it is released.
pub proof fn lemma_pinned_until_release(
    mapping: Map<KeyIdentity, RemapTarget>,
    pinned: Map<KeyIdentity, RemapTarget>,
    inputs: Seq<EngineInput>,
    id: KeyIdentity,
)
    requires
        pinned.contains_key(id),
        never_released(inputs, id),
    ensures
        run(mapping, pinned, inputs).0.contains_key(id),
        run(mapping, pinned, inputs).0[id] == pinned[id],
    decreases inputs.len(),
{
    if inputs.len() > 0 {
        let earlier = inputs.drop_last();
        assert forall|i: int| 0 <= i < earlier.len() implies (#[trigger] earlier[i]).event
            != KeyEvent::Released(id) by {
            assert(earlier[i] == inputs[i]);
        }
        lemma_pinned_until_release(mapping, pinned, earlier, id);
        assert(inputs[inputs.len() - 1].event != KeyEvent::Released(id));
    }
}

/// Pinning: the release of a key replays the decision that was taken at its
/// press. Whatever arrives between the two, and whatever the suppression
/// policy answers then or at the release, the key comes up as what it went
/// down as, and is no longer pinned afterwards.
pub proof fn lemma_release_replays_press(
    mapping: Map<KeyIdentity, RemapTarget>,
    pinned: Map<KeyIdentity, RemapTarget>,
    id: KeyIdentity,
    suppressed_at_press: bool,
    between: Seq<EngineInput>,
    suppressed_at_release: bool,
)
    requires
        !pinned.contains_key(id),
        never_released(between, id),
    ensures
        ({
            let target = choose_target(mapping, id, suppressed_at_press);
            let press = step(
                mapping,
                pinned,
                EngineInput { event: KeyEvent::Pressed(id), suppressed: suppressed_at_press },
            );
            let held = run(mapping, press.0, between);
            let release = step(
                mapping,
                held.0,
                EngineInput { event: KeyEvent::Released(id), suppressed: suppressed_at_release },
            );
            &&& press.1 == press_action(id, target)
            &&& release.1 == release_action(id, target)
            &&& !release.0.contains_key(id)
        }),
{
    let press = step(
        mapping,
        pinned,
        EngineInput { event: KeyEvent::Pressed(id), suppressed: suppressed_at_press },
    );
    lemma_pinned_until_release(mapping, press.0, between, id);
}

/// Media commands are edge-triggered: a key pressed as a media command
/// issues the command once. Further presses while it is down, and its
/// release, ask for nothing.
pub proof fn lemma_media_command_once(
    mapping: Map<KeyIdentity, RemapTarget>,
    pinned: Map<KeyIdentity, RemapTarget>,
    id: KeyIdentity,
    suppressed: bool,
    suppressed_later: bool,
)
    requires
        !pinned.contains_key(id),
        choose_target(mapping, id, suppressed) is MediaCommand,
    ensures
        ({
            let first = step(
                mapping,
                pinned,
                EngineInput { event: KeyEvent::Pressed(id), suppressed },
            );
            let again = step(
                mapping,
                first.0,
                EngineInput { event: KeyEvent::Pressed(id), suppressed: suppressed_later },
            );
            let release = step(
                mapping,
                again.0,
                EngineInput { event: KeyEvent::Released(id), suppressed: suppressed_later },
            );
            &&& first.1 == Some(
                LogicalAction::MediaCommand(choose_target(mapping, id, suppressed)->MediaCommand_0),
            )
            &&& again.1 is None
            &&& again.0 == first.0
            &&& release.1 is None
        }),
{
}

/// Total mapping default: a key that the mapping does not define resolves to
/// `Passthrough`, and is forwarded unchanged, down and up.
pub proof fn lemma_undefined_key_passes_through(
    mapping: Map<KeyIdentity, RemapTarget>,
    pinned: Map<KeyIdentity, RemapTarget>,
    id: KeyIdentity,
    suppressed: bool,
    suppressed_at_release: bool,
)
    requires
        !mapping.contains_key(id),
        !pinned.contains_key(id),
    ensures
        resolve(mapping, id) == RemapTarget::Passthrough,
        ({
            let press = step(
                mapping,
                pinned,
                EngineInput { event: KeyEvent::Pressed(id), suppressed },
            );
            let release = step(
                mapping,
                press.0,
                EngineInput { event: KeyEvent::Released(id), suppressed: suppressed_at_release },
            );
            &&& press.1 == Some(key_down(id))
            &&& release.1 == Some(key_up(id))
        }),
{
}

/// While remapping is suppressed every key is pressed as itself, whatever the
/// mapping says.
pub proof fn lemma_suppressed_press_passes_through(
    mapping: Map<KeyIdentity, RemapTarget>,
    pinned: Map<KeyIdentity, RemapTarget>,
    id: KeyIdentity,
)
    requires
        !pinned.contains_key(id),
    ensures
        step(mapping, pinned, EngineInput { event: KeyEvent::Pressed(id), suppressed: true }).1
            == Some(key_down(id)),
        step(mapping, pinned, EngineInput { event: KeyEvent::Pressed(id), suppressed: true }).0
            == pinned.insert(id, RemapTarget::Passthrough),
{
}

/// A release of a key that is not down changes nothing and asks for nothing.
pub proof fn lemma_stray_release_is_ignored(
    mapping: Map<KeyIdentity, RemapTarget>,
    pinned: Map<KeyIdentity, RemapTarget>,
    id: KeyIdentity,
    suppressed: bool,
)
    requires
        !pinned.contains_key(id),
    ensures
        step(mapping, pinned, EngineInput { event: KeyEvent::Released(id), suppressed }) == (
            pinned,
            None::<LogicalAction>,
        ),
{
}

/// Every outcome in the series is a failure.
pub open spec fn all_failed(outcomes: Seq<(u64, Option<WindowInfo>)>) -> bool {
    forall|i: int| 0 <= i < outcomes.len() ==> (#[trigger] outcomes[i]).1 is None
}

/// Fail-open focus: failures change nothing. A cache that has never had an
/// answer stays empty, and one that has had an answer keeps it.
pub proof fn lemma_failures_keep_snapshot(
    held: Option<FocusSnapshot>,
    outcomes: Seq<(u64, Option<WindowInfo>)>,
)
    requires
        all_failed(outcomes),
    ensures
        recorded_all(held, outcomes) == held,
    decreases outcomes.len(),
{
    if outcomes.len() > 0 {
        let earlier = outcomes.drop_last();
        assert forall|i: int| 0 <= i < earlier.len() implies (#[trigger] earlier[i]).1 is None by {
            assert(earlier[i] == outcomes[i]);
        }
        lemma_failures_keep_snapshot(held, earlier);
        assert(outcomes[outcomes.len() - 1].1 is None);
    }
}

/// After an answer, the cache holds that answer until the next one, however
/// often the window system fails in between.
pub proof fn lemma_last_answer_is_kept(
    held: Option<FocusSnapshot>,
    now: u64,
    info: WindowInfo,
    failures: Seq<(u64, Option<WindowInfo>)>,
)
    requires
        all_failed(failures),
    ensures
        recorded_all(recorded(held, now, Some(info)), failures) == Some(
            FocusSnapshot { title: info.title, window_class: info.class, captured_at: now },
        ),
{
    lemma_failures_keep_snapshot(recorded(held, now, Some(info)), failures);
}

/// Fail-open focus: where the very first question fails, nothing is known of
/// the focus and remapping is not suppressed; where a question fails later,
/// what was known before is known still.
pub proof fn lemma_fail_open(held: Option<FocusSnapshot>, now: u64)
    ensures
        recorded(None, now, None) is None,
        !suppressed_by(recorded(None, now, None)),
        recorded(held, now, None) == held,
{
}

} // verus!
