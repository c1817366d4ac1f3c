//! The standard remapping: W, A, S and D become the arrow keys, and three keys
//! of the numeric pad become volume controls.

use crate::keys::{CommandKind, KeyCode, KeyIdentity, MappingEntry, RemapTarget};
use crate::mapping::{
    distinct_keys, entries_map, lemma_entries_map_keys, lemma_entries_map_value, repeats_at,
    MappingTable,
};
use vstd::prelude::*;

verus! {

/// Matrix position of the W key.
pub const WASD_UP: (u8, u8) = (1, 2);

/// Matrix position of the A key.
pub const WASD_LEFT: (u8, u8) = (2, 1);

/// Matrix position of the S key.
pub const WASD_DOWN: (u8, u8) = (2, 2);

/// Matrix position of the D key.
pub const WASD_RIGHT: (u8, u8) = (2, 3);

/// Matrix position of the plus key of the numeric pad.
pub const NUMPAD_PLUS: (u8, u8) = (5, 4);

/// Matrix position of the minus key of the numeric pad.
pub const NUMPAD_MINUS: (u8, u8) = (4, 4);

/// Matrix position of the divide key of the numeric pad.
pub const NUMPAD_DIVIDE: (u8, u8) = (5, 0);

/// What the standard remapping makes of a matrix position.
pub open spec fn matrix_target(row: u8, col: u8) -> RemapTarget {
    if (row, col) == WASD_UP {
        RemapTarget::EmitKey(KeyIdentity::PhysicalKeyCode(KeyCode::UpArrow))
    } else if (row, col) == WASD_LEFT {
        RemapTarget::EmitKey(KeyIdentity::PhysicalKeyCode(KeyCode::LeftArrow))
    } else if (row, col) == WASD_DOWN {
        RemapTarget::EmitKey(KeyIdentity::PhysicalKeyCode(KeyCode::DownArrow))
    } else if (row, col) == WASD_RIGHT {
        RemapTarget::EmitKey(KeyIdentity::PhysicalKeyCode(KeyCode::RightArrow))
    } else if (row, col) == NUMPAD_PLUS {
        RemapTarget::MediaCommand(CommandKind::VolumeUp)
    } else if (row, col) == NUMPAD_MINUS {
        RemapTarget::MediaCommand(CommandKind::VolumeDown)
    } else if (row, col) == NUMPAD_DIVIDE {
        RemapTarget::MediaCommand(CommandKind::ToggleMute)
    } else {
        RemapTarget::Passthrough
    }
}

/// What the standard remapping makes of a key known by its name.
pub open spec fn key_code_target(code: KeyCode) -> RemapTarget {
    match code {
        KeyCode::KeyW => RemapTarget::EmitKey(KeyIdentity::PhysicalKeyCode(KeyCode::UpArrow)),
        KeyCode::KeyA => RemapTarget::EmitKey(KeyIdentity::PhysicalKeyCode(KeyCode::LeftArrow)),
        KeyCode::KeyS => RemapTarget::EmitKey(KeyIdentity::PhysicalKeyCode(KeyCode::DownArrow)),
        KeyCode::KeyD => RemapTarget::EmitKey(KeyIdentity::PhysicalKeyCode(KeyCode::RightArrow)),
        KeyCode::KpPlus => RemapTarget::MediaCommand(CommandKind::VolumeUp),
        KeyCode::KpMinus => RemapTarget::MediaCommand(CommandKind::VolumeDown),
        KeyCode::KpDivide => RemapTarget::MediaCommand(CommandKind::ToggleMute),
        _ => RemapTarget::Passthrough,
    }
}

/// What the standard remapping makes of a key, however it is identified.
pub open spec fn standard_target(id: KeyIdentity) -> RemapTarget {
    match id {
        KeyIdentity::MatrixPosition { row, col } => matrix_target(row, col),
        KeyIdentity::PhysicalKeyCode(code) => key_code_target(code),
    }
}

/// The standard remapping as an association: it defines exactly the keys that
/// it does not pass through.
pub open spec fn standard_mapping() -> Map<KeyIdentity, RemapTarget> {
    Map::new(
        |id: KeyIdentity| standard_target(id) != RemapTarget::Passthrough,
        |id: KeyIdentity| standard_target(id),
    )
}

/// Whether the standard remapping changes the key at this matrix position.
pub fn is_remappable_key(row: u8, col: u8) -> (r: bool)
    ensures
        r == (matrix_target(row, col) != RemapTarget::Passthrough),
        r == ((row, col) == WASD_UP || (row, col) == WASD_LEFT || (row, col) == WASD_DOWN || (row,
            col) == WASD_RIGHT || (row, col) == NUMPAD_PLUS || (row, col) == NUMPAD_MINUS || (row,
            col) == NUMPAD_DIVIDE),
{
    at(row, col, WASD_UP) || at(row, col, WASD_LEFT) || at(row, col, WASD_DOWN) || at(
        row,
        col,
        WASD_RIGHT,
    ) || at(row, col, NUMPAD_PLUS) || at(row, col, NUMPAD_MINUS) || at(row, col, NUMPAD_DIVIDE)
}

/// What the standard remapping turns the key at this matrix position into;
/// `Passthrough` for a position that it leaves alone.
pub fn get_remapped_action(row: u8, col: u8) -> (target: RemapTarget)
    ensures
        target == matrix_target(row, col),
{
    if at(row, col, WASD_UP) {
        RemapTarget::EmitKey(KeyIdentity::PhysicalKeyCode(KeyCode::UpArrow))
    } else if at(row, col, WASD_LEFT) {
        RemapTarget::EmitKey(KeyIdentity::PhysicalKeyCode(KeyCode::LeftArrow))
    } else if at(row, col, WASD_DOWN) {
        RemapTarget::EmitKey(KeyIdentity::PhysicalKeyCode(KeyCode::DownArrow))
    } else if at(row, col, WASD_RIGHT) {
        RemapTarget::EmitKey(KeyIdentity::PhysicalKeyCode(KeyCode::RightArrow))
    } else if at(row, col, NUMPAD_PLUS) {
        RemapTarget::MediaCommand(CommandKind::VolumeUp)
    } else if at(row, col, NUMPAD_MINUS) {
        RemapTarget::MediaCommand(CommandKind::VolumeDown)
    } else if at(row, col, NUMPAD_DIVIDE) {
        RemapTarget::MediaCommand(CommandKind::ToggleMute)
    } else {
        RemapTarget::Passthrough
    }
}

fn at(row: u8, col: u8, position: (u8, u8)) -> (r: bool)
    ensures
        r == ((row, col) == position),
{
    row == position.0 && col == position.1
}

fn matrix_entry(position: (u8, u8)) -> (entry: MappingEntry)
    ensures
        entry.key == (KeyIdentity::MatrixPosition { row: position.0, col: position.1 }),
        entry.target == matrix_target(position.0, position.1),
{
    MappingEntry {
        key: KeyIdentity::MatrixPosition { row: position.0, col: position.1 },
        target: get_remapped_action(position.0, position.1),
    }
}

fn key_code_entry(code: KeyCode, target: RemapTarget) -> (entry: MappingEntry)
    ensures
        entry.key == KeyIdentity::PhysicalKeyCode(code),
        entry.target == target,
{
    MappingEntry { key: KeyIdentity::PhysicalKeyCode(code), target }
}

/// The entries of the standard remapping, for both ways of identifying a key.
pub fn standard_entries() -> (entries: Vec<MappingEntry>)
    ensures
        distinct_keys(entries@),
        entries_map(entries@) == standard_mapping(),
{
    let mut entries: Vec<MappingEntry> = Vec::new();
    entries.push(matrix_entry(WASD_UP));
    entries.push(matrix_entry(WASD_LEFT));
    entries.push(matrix_entry(WASD_DOWN));
    entries.push(matrix_entry(WASD_RIGHT));
    entries.push(matrix_entry(NUMPAD_PLUS));
    entries.push(matrix_entry(NUMPAD_MINUS));
    entries.push(matrix_entry(NUMPAD_DIVIDE));
    entries.push(
        key_code_entry(
            KeyCode::KeyW,
            RemapTarget::EmitKey(KeyIdentity::PhysicalKeyCode(KeyCode::UpArrow)),
        ),
    );
    entries.push(
        key_code_entry(
            KeyCode::KeyA,
            RemapTarget::EmitKey(KeyIdentity::PhysicalKeyCode(KeyCode::LeftArrow)),
        ),
    );
    entries.push(
        key_code_entry(
            KeyCode::KeyS,
            RemapTarget::EmitKey(KeyIdentity::PhysicalKeyCode(KeyCode::DownArrow)),
        ),
    );
    entries.push(
        key_code_entry(
            KeyCode::KeyD,
            RemapTarget::EmitKey(KeyIdentity::PhysicalKeyCode(KeyCode::RightArrow)),
        ),
    );
    entries.push(key_code_entry(KeyCode::KpPlus, RemapTarget::MediaCommand(CommandKind::VolumeUp)));
    entries.push(
        key_code_entry(KeyCode::KpMinus, RemapTarget::MediaCommand(CommandKind::VolumeDown)),
    );
    entries.push(
        key_code_entry(KeyCode::KpDivide, RemapTarget::MediaCommand(CommandKind::ToggleMute)),
    );
    proof {
        let s = entries@;
        assert(s.len() == 14);
        assert forall|j: int| 0 <= j < s.len() implies !#[trigger] repeats_at(s, j) by {
            if repeats_at(s, j) {
                let i = choose|i: int| 0 <= i < j && #[trigger] s[i].key == s[j].key;
                assert(s[i].key == s[j].key);
            }
        }
        assert forall|id: KeyIdentity|
            #![trigger entries_map(s).dom().contains(id)]
            #![trigger standard_mapping().dom().contains(id)]
            #![trigger entries_map(s)[id]]
            #![trigger standard_mapping()[id]]
            entries_map(s).dom().contains(id) == standard_mapping().dom().contains(id) && (
            entries_map(s).dom().contains(id) ==> entries_map(s)[id] == standard_mapping()[id]) by {
            lemma_entries_map_keys(s, id);
            if entries_map(s).contains_key(id) {
                let i = choose|i: int| 0 <= i < s.len() && #[trigger] s[i].key == id;
                lemma_entries_map_value(s, i);
            }
            if standard_mapping().contains_key(id) {
                let i: int = match id {
                    KeyIdentity::MatrixPosition { row, col } => {
                        if (row, col) == WASD_UP {
                            0
                        } else if (row, col) == WASD_LEFT {
                            1
                        } else if (row, col) == WASD_DOWN {
                            2
                        } else if (row, col) == WASD_RIGHT {
                            3
                        } else if (row, col) == NUMPAD_PLUS {
                            4
                        } else if (row, col) == NUMPAD_MINUS {
                            5
                        } else {
                            6
                        }
                    },
                    KeyIdentity::PhysicalKeyCode(code) => match code {
                        KeyCode::KeyW => 7,
                        KeyCode::KeyA => 8,
                        KeyCode::KeyS => 9,
                        KeyCode::KeyD => 10,
                        KeyCode::KpPlus => 11,
                        KeyCode::KpMinus => 12,
                        _ => 13,
                    },
                };
                assert(s[i].key == id);
            }
        }
        assert(entries_map(s) =~= standard_mapping());
    }
    entries
}

/// The table of the standard remapping.
pub fn standard_table() -> (table: MappingTable)
    ensures
        table@ == standard_mapping(),
{
    match MappingTable::new(standard_entries()) {
        Ok(table) => table,
        Err(_) => vstd::pervasive::unreached(),
    }
}

} // verus!
