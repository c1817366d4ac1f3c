use keyremap::engine::{KeyEvent, LogicalAction, RemapEngine};
use keyremap::focus::FocusSnapshot;
use keyremap::keys::{CommandKind, KeyCode, KeyIdentity, MappingEntry, RemapTarget};
use keyremap::layout::standard_table;
use keyremap::mapping::MappingTable;

fn named(code: KeyCode) -> KeyIdentity {
    KeyIdentity::PhysicalKeyCode(code)
}

fn at(row: u8, col: u8) -> KeyIdentity {
    KeyIdentity::MatrixPosition { row, col }
}

fn down(id: KeyIdentity) -> LogicalAction {
    LogicalAction::EmitKey { id, pressed: true }
}

fn up(id: KeyIdentity) -> LogicalAction {
    LogicalAction::EmitKey { id, pressed: false }
}

fn engine() -> RemapEngine {
    RemapEngine::new(standard_table())
}

#[test]
fn release_replays_the_target_pinned_at_press() {
    let mut e = engine();
    assert_eq!(e.handle(KeyEvent::Pressed(named(KeyCode::KeyW)), false), Some(down(named(KeyCode::UpArrow))));
    assert_eq!(e.pinned_target(named(KeyCode::KeyW)), Some(RemapTarget::EmitKey(named(KeyCode::UpArrow))));
    // The focus has changed to a window that suppresses remapping.
    assert_eq!(e.handle(KeyEvent::Released(named(KeyCode::KeyW)), true), Some(up(named(KeyCode::UpArrow))));
    assert_eq!(e.pinned_target(named(KeyCode::KeyW)), None);
    assert_eq!(e.held_count(), 0);
}

#[test]
fn key_pressed_while_suppressed_comes_up_as_itself() {
    let mut e = engine();
    assert_eq!(e.handle(KeyEvent::Pressed(named(KeyCode::KeyW)), true), Some(down(named(KeyCode::KeyW))));
    assert_eq!(e.pinned_target(named(KeyCode::KeyW)), Some(RemapTarget::Passthrough));
    assert_eq!(e.handle(KeyEvent::Released(named(KeyCode::KeyW)), false), Some(up(named(KeyCode::KeyW))));
}

#[test]
fn media_command_is_issued_once_per_press() {
    let mut e = engine();
    let key = named(KeyCode::KpMinus);
    assert_eq!(e.handle(KeyEvent::Pressed(key), false), Some(LogicalAction::MediaCommand(CommandKind::VolumeDown)));
    assert_eq!(e.handle(KeyEvent::Pressed(key), false), None);
    assert_eq!(e.handle(KeyEvent::Pressed(key), true), None);
    assert_eq!(e.handle(KeyEvent::Released(key), false), None);
    assert_eq!(e.held_count(), 0);
    assert_eq!(e.handle(KeyEvent::Pressed(key), false), Some(LogicalAction::MediaCommand(CommandKind::VolumeDown)));
}

#[test]
fn two_presses_of_kp_minus_give_one_volume_down() {
    let mut e = engine();
    let key = named(KeyCode::KpMinus);
    let actions = e.handle_all(&vec![KeyEvent::Pressed(key), KeyEvent::Pressed(key)], false);
    assert_eq!(actions, vec![LogicalAction::MediaCommand(CommandKind::VolumeDown)]);
}

#[test]
fn each_media_key_has_its_command() {
    let mut e = engine();
    assert_eq!(e.handle(KeyEvent::Pressed(named(KeyCode::KpPlus)), false), Some(LogicalAction::MediaCommand(CommandKind::VolumeUp)));
    assert_eq!(e.handle(KeyEvent::Pressed(named(KeyCode::KpDivide)), false), Some(LogicalAction::MediaCommand(CommandKind::ToggleMute)));
    assert_eq!(e.handle(KeyEvent::Pressed(at(4, 4)), false), Some(LogicalAction::MediaCommand(CommandKind::VolumeDown)));
    let table = MappingTable::new(vec![MappingEntry {
        key: named(KeyCode::Kp5),
        target: RemapTarget::MediaCommand(CommandKind::PlayPause),
    }])
    .unwrap();
    let mut e = RemapEngine::new(table);
    assert_eq!(e.handle(KeyEvent::Pressed(named(KeyCode::Kp5)), false), Some(LogicalAction::MediaCommand(CommandKind::PlayPause)));
}

#[test]
fn suppressed_media_key_is_an_ordinary_key() {
    let mut e = engine();
    let key = named(KeyCode::KpPlus);
    assert_eq!(e.handle(KeyEvent::Pressed(key), true), Some(down(key)));
    assert_eq!(e.handle(KeyEvent::Pressed(key), false), Some(down(key)));
    assert_eq!(e.handle(KeyEvent::Released(key), false), Some(up(key)));
}

#[test]
fn unmapped_key_is_forwarded_unchanged() {
    let mut e = engine();
    let key = named(KeyCode::KeyQ);
    assert_eq!(e.handle(KeyEvent::Pressed(key), false), Some(down(key)));
    assert_eq!(e.handle(KeyEvent::Released(key), false), Some(up(key)));
    let key = at(0, 0);
    assert_eq!(e.handle(KeyEvent::Pressed(key), false), Some(down(key)));
    assert_eq!(e.handle(KeyEvent::Released(key), false), Some(up(key)));
}

#[test]
fn repeated_press_of_a_key_repeats_the_press() {
    let mut e = engine();
    let w = named(KeyCode::KeyW);
    assert_eq!(e.handle(KeyEvent::Pressed(w), false), Some(down(named(KeyCode::UpArrow))));
    assert_eq!(e.handle(KeyEvent::Pressed(w), false), Some(down(named(KeyCode::UpArrow))));
    // The repeat goes by the pinned target, not by the policy of the moment.
    assert_eq!(e.handle(KeyEvent::Pressed(w), true), Some(down(named(KeyCode::UpArrow))));
    assert_eq!(e.held_count(), 1);
    assert_eq!(e.handle(KeyEvent::Released(w), false), Some(up(named(KeyCode::UpArrow))));
    assert_eq!(e.handle(KeyEvent::Released(w), false), None);
}

#[test]
fn release_of_a_key_that_is_not_down_does_nothing() {
    let mut e = engine();
    assert_eq!(e.handle(KeyEvent::Released(named(KeyCode::KeyW)), false), None);
    assert_eq!(e.handle(KeyEvent::Released(at(3, 3)), true), None);
    assert_eq!(e.held_count(), 0);
}

#[test]
fn keys_are_pinned_independently() {
    let mut e = engine();
    let w = named(KeyCode::KeyW);
    let a = named(KeyCode::KeyA);
    assert_eq!(e.handle(KeyEvent::Pressed(w), false), Some(down(named(KeyCode::UpArrow))));
    assert_eq!(e.handle(KeyEvent::Pressed(a), true), Some(down(a)));
    assert_eq!(e.held_count(), 2);
    assert_eq!(e.handle(KeyEvent::Released(w), true), Some(up(named(KeyCode::UpArrow))));
    assert_eq!(e.pinned_target(a), Some(RemapTarget::Passthrough));
    assert_eq!(e.handle(KeyEvent::Released(a), false), Some(up(a)));
    assert_eq!(e.held_count(), 0);
}

#[test]
fn matrix_position_is_remapped_as_well() {
    let mut e = engine();
    assert_eq!(e.handle(KeyEvent::Pressed(at(1, 2)), false), Some(down(named(KeyCode::UpArrow))));
    assert_eq!(e.handle(KeyEvent::Released(at(1, 2)), false), Some(up(named(KeyCode::UpArrow))));
    assert_eq!(e.handle(KeyEvent::Pressed(at(2, 3)), false), Some(down(named(KeyCode::RightArrow))));
    assert_eq!(e.handle(KeyEvent::Released(at(2, 3)), true), Some(up(named(KeyCode::RightArrow))));
}

#[test]
fn paired_stream_sends_every_key_down_as_often_as_up() {
    let keys = [
        named(KeyCode::KeyW),
        named(KeyCode::KeyA),
        named(KeyCode::KeyQ),
        named(KeyCode::KpPlus),
        at(1, 2),
        at(0, 5),
    ];
    let mut e = engine();
    let mut actions = Vec::new();
    // Presses in one order under changing policy, releases in another.
    for (n, key) in keys.iter().enumerate() {
        actions.extend(e.handle(KeyEvent::Pressed(*key), n % 2 == 0));
    }
    for (n, key) in keys.iter().rev().enumerate() {
        actions.extend(e.handle(KeyEvent::Released(*key), n % 3 == 0));
    }
    assert_eq!(e.held_count(), 0);
    let all = [
        named(KeyCode::KeyW),
        named(KeyCode::KeyA),
        named(KeyCode::KeyQ),
        named(KeyCode::KpPlus),
        named(KeyCode::UpArrow),
        named(KeyCode::LeftArrow),
        at(1, 2),
        at(0, 5),
    ];
    for key in all {
        let downs = actions.iter().filter(|a| **a == down(key)).count();
        let ups = actions.iter().filter(|a| **a == up(key)).count();
        assert_eq!(downs, ups);
    }
    // W was pressed suppressed, A unsuppressed.
    assert_eq!(actions.iter().filter(|a| **a == down(named(KeyCode::KeyW))).count(), 1);
    assert_eq!(actions.iter().filter(|a| **a == down(named(KeyCode::LeftArrow))).count(), 1);
}

#[test]
fn handle_all_keeps_the_order_of_arrival() {
    let mut e = engine();
    let events = vec![
        KeyEvent::Pressed(named(KeyCode::KeyW)),
        KeyEvent::Pressed(named(KeyCode::KpPlus)),
        KeyEvent::Pressed(named(KeyCode::KeyX)),
        KeyEvent::Released(named(KeyCode::KeyW)),
        KeyEvent::Released(named(KeyCode::KpPlus)),
        KeyEvent::Released(named(KeyCode::KeyX)),
        KeyEvent::Released(named(KeyCode::KeyX)),
    ];
    let actions = e.handle_all(&events, false);
    assert_eq!(
        actions,
        vec![
            down(named(KeyCode::UpArrow)),
            LogicalAction::MediaCommand(CommandKind::VolumeUp),
            down(named(KeyCode::KeyX)),
            up(named(KeyCode::UpArrow)),
            up(named(KeyCode::KeyX)),
        ]
    );
    assert_eq!(e.held_count(), 0);
}

#[test]
fn handle_all_of_nothing_is_nothing() {
    let mut e = engine();
    assert_eq!(e.handle_all(&Vec::new(), false), Vec::new());
    assert_eq!(e.held_count(), 0);
}

fn next(seed: &mut u64) -> u64 {
    *seed = seed.wrapping_mul(6364136223846793005).wrapping_add(1442695040888963407);
    *seed >> 33
}

#[test]
fn long_paired_streams_leave_no_key_down() {
    let keys = [
        named(KeyCode::KeyW),
        named(KeyCode::KeyA),
        named(KeyCode::KeyS),
        named(KeyCode::KeyD),
        named(KeyCode::KeyQ),
        named(KeyCode::KpPlus),
        named(KeyCode::KpMinus),
        named(KeyCode::UpArrow),
        at(1, 2),
        at(2, 1),
        at(5, 4),
        at(3, 3),
    ];
    let mut seed = 7u64;
    for _ in 0..50 {
        let mut e = engine();
        let mut is_down = [false; 12];
        let mut actions = Vec::new();
        for _ in 0..200 {
            let k = (next(&mut seed) % 12) as usize;
            let suppressed = next(&mut seed) % 2 == 0;
            let event = if is_down[k] { KeyEvent::Released(keys[k]) } else { KeyEvent::Pressed(keys[k]) };
            is_down[k] = !is_down[k];
            actions.extend(e.handle(event, suppressed));
        }
        for k in 0..12 {
            if is_down[k] {
                actions.extend(e.handle(KeyEvent::Released(keys[k]), next(&mut seed) % 2 == 0));
            }
        }
        assert_eq!(e.held_count(), 0);
        for key in keys {
            let downs = actions.iter().filter(|a| **a == down(key)).count();
            let ups = actions.iter().filter(|a| **a == up(key)).count();
            assert_eq!(downs, ups);
        }
    }
}

#[test]
fn focus_decides_only_when_a_key_goes_down() {
    let terminal = FocusSnapshot {
        title: "~".to_string(),
        window_class: "xterm-terminal".to_string(),
        captured_at: 0,
    };
    let sheet = FocusSnapshot {
        title: "Spreadsheet".to_string(),
        window_class: "calc".to_string(),
        captured_at: 0,
    };
    let w = named(KeyCode::KeyW);
    let mut e = engine();
    assert_eq!(e.handle_in_focus(KeyEvent::Pressed(w), Some(&sheet)), Some(down(named(KeyCode::UpArrow))));
    assert_eq!(e.handle_in_focus(KeyEvent::Pressed(w), Some(&terminal)), Some(down(named(KeyCode::UpArrow))));
    assert_eq!(e.handle_in_focus(KeyEvent::Released(w), Some(&terminal)), Some(up(named(KeyCode::UpArrow))));
    assert_eq!(e.handle_in_focus(KeyEvent::Pressed(w), Some(&terminal)), Some(down(w)));
    assert_eq!(e.handle_in_focus(KeyEvent::Released(w), Some(&sheet)), Some(up(w)));
    assert_eq!(e.handle_in_focus(KeyEvent::Pressed(w), None), Some(down(named(KeyCode::UpArrow))));
    assert_eq!(e.handle_in_focus(KeyEvent::Released(w), None), Some(up(named(KeyCode::UpArrow))));
}
