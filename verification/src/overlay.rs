//! Overlay-side input and widget data: translating native virtual-key codes
//! into the UI toolkit's key identifiers, and reducing raw per-player game
//! stats to the values the resource panel shows.
//!
//! The surrounding input plumbing — reading window messages, modifier state
//! and hit-testing against floating windows — lives at the unverified edge
//! and hands plain integers in.

use vstd::prelude::*;
use vstd::arithmetic::div_mod::lemma_mod_multiples_vanish;
use vstd::arithmetic::div_mod::lemma_small_mod;

verus! {

/// The UI toolkit's key identifiers that the overlay forwards; any other
/// virtual key is not forwarded at all.
#[derive(Clone, Copy, PartialEq, Eq, Structural, Debug)]
pub enum UiKey {
    ArrowDown,
    ArrowLeft,
    ArrowRight,
    ArrowUp,
    Escape,
    Tab,
    Backspace,
    Enter,
    Space,
    Insert,
    Delete,
    Home,
    End,
    PageUp,
    PageDown,
    Minus,
    PlusEquals,
    Num0,
    Num1,
    Num2,
    Num3,
    Num4,
    Num5,
    Num6,
    Num7,
    Num8,
    Num9,
    A,
    B,
    C,
    D,
    E,
    F,
    G,
    H,
    I,
    J,
    K,
    L,
    M,
    N,
    O,
    P,
    Q,
    R,
    S,
    T,
    U,
    V,
    W,
    X,
    Y,
    Z,
    F1,
    F2,
    F3,
    F4,
    F5,
    F6,
    F7,
    F8,
    F9,
    F10,
    F11,
    F12,
    F13,
    F14,
    F15,
    F16,
    F17,
    F18,
    F19,
    F20,
}

/// The key table: which UI key each native virtual-key code stands for.
/// Digits map from both the main row and the numeric pad; keys with no entry
/// are dropped.
pub open spec fn spec_vkey_to_egui_key(key: int) -> Option<UiKey> {
    if key == 0x28 {
        Some(UiKey::ArrowDown)
    } else if key == 0x25 {
        Some(UiKey::ArrowLeft)
    } else if key == 0x27 {
        Some(UiKey::ArrowRight)
    } else if key == 0x26 {
        Some(UiKey::ArrowUp)
    } else if key == 0x1b {
        Some(UiKey::Escape)
    } else if key == 0x09 {
        Some(UiKey::Tab)
    } else if key == 0x08 {
        Some(UiKey::Backspace)
    } else if key == 0x0d {
        Some(UiKey::Enter)
    } else if key == 0x20 {
        Some(UiKey::Space)
    } else if key == 0x2d {
        Some(UiKey::Insert)
    } else if key == 0x2e {
        Some(UiKey::Delete)
    } else if key == 0x24 {
        Some(UiKey::Home)
    } else if key == 0x23 {
        Some(UiKey::End)
    } else if key == 0x21 {
        Some(UiKey::PageUp)
    } else if key == 0x22 {
        Some(UiKey::PageDown)
    } else if key == 0x6d {
        Some(UiKey::Minus)
    } else if key == 0x6b {
        Some(UiKey::PlusEquals)
    } else if key == 0x30 || key == 0x60 {
        Some(UiKey::Num0)
    } else if key == 0x31 || key == 0x61 {
        Some(UiKey::Num1)
    } else if key == 0x32 || key == 0x62 {
        Some(UiKey::Num2)
    } else if key == 0x33 || key == 0x63 {
        Some(UiKey::Num3)
    } else if key == 0x34 || key == 0x64 {
        Some(UiKey::Num4)
    } else if key == 0x35 || key == 0x65 {
        Some(UiKey::Num5)
    } else if key == 0x36 || key == 0x66 {
        Some(UiKey::Num6)
    } else if key == 0x37 || key == 0x67 {
        Some(UiKey::Num7)
    } else if key == 0x38 || key == 0x68 {
        Some(UiKey::Num8)
    } else if key == 0x39 || key == 0x69 {
        Some(UiKey::Num9)
    } else if key == 0x41 {
        Some(UiKey::A)
    } else if key == 0x42 {
        Some(UiKey::B)
    } else if key == 0x43 {
        Some(UiKey::C)
    } else if key == 0x44 {
        Some(UiKey::D)
    } else if key == 0x45 {
        Some(UiKey::E)
    } else if key == 0x46 {
        Some(UiKey::F)
    } else if key == 0x47 {
        Some(UiKey::G)
    } else if key == 0x48 {
        Some(UiKey::H)
    } else if key == 0x49 {
        Some(UiKey::I)
    } else if key == 0x4a {
        Some(UiKey::J)
    } else if key == 0x4b {
        Some(UiKey::K)
    } else if key == 0x4c {
        Some(UiKey::L)
    } else if key == 0x4d {
        Some(UiKey::M)
    } else if key == 0x4e {
        Some(UiKey::N)
    } else if key == 0x4f {
        Some(UiKey::O)
    } else if key == 0x50 {
        Some(UiKey::P)
    } else if key == 0x51 {
        Some(UiKey::Q)
    } else if key == 0x52 {
        Some(UiKey::R)
    } else if key == 0x53 {
        Some(UiKey::S)
    } else if key == 0x54 {
        Some(UiKey::T)
    } else if key == 0x55 {
        Some(UiKey::U)
    } else if key == 0x56 {
        Some(UiKey::V)
    } else if key == 0x57 {
        Some(UiKey::W)
    } else if key == 0x58 {
        Some(UiKey::X)
    } else if key == 0x59 {
        Some(UiKey::Y)
    } else if key == 0x5a {
        Some(UiKey::Z)
    } else if key == 0x70 {
        Some(UiKey::F1)
    } else if key == 0x71 {
        Some(UiKey::F2)
    } else if key == 0x72 {
        Some(UiKey::F3)
    } else if key == 0x73 {
        Some(UiKey::F4)
    } else if key == 0x74 {
        Some(UiKey::F5)
    } else if key == 0x75 {
        Some(UiKey::F6)
    } else if key == 0x76 {
        Some(UiKey::F7)
    } else if key == 0x77 {
        Some(UiKey::F8)
    } else if key == 0x78 {
        Some(UiKey::F9)
    } else if key == 0x79 {
        Some(UiKey::F10)
    } else if key == 0x7a {
        Some(UiKey::F11)
    } else if key == 0x7b {
        Some(UiKey::F12)
    } else if key == 0x7c {
        Some(UiKey::F13)
    } else if key == 0x7d {
        Some(UiKey::F14)
    } else if key == 0x7e {
        Some(UiKey::F15)
    } else if key == 0x7f {
        Some(UiKey::F16)
    } else if key == 0x80 {
        Some(UiKey::F17)
    } else if key == 0x81 {
        Some(UiKey::F18)
    } else if key == 0x82 {
        Some(UiKey::F19)
    } else if key == 0x83 {
        Some(UiKey::F20)
    } else {
        None
    }
}

/// Translates one native virtual-key code to the UI toolkit's key, exactly
/// as the key table states; codes outside the table are dropped.
pub fn vkey_to_egui_key(key: i32) -> (r: Option<UiKey>)
    ensures
        r == spec_vkey_to_egui_key(key as int),
{
    match key {
        0x28 => Some(UiKey::ArrowDown),
        0x25 => Some(UiKey::ArrowLeft),
        0x27 => Some(UiKey::ArrowRight),
        0x26 => Some(UiKey::ArrowUp),
        0x1b => Some(UiKey::Escape),
        0x09 => Some(UiKey::Tab),
        0x08 => Some(UiKey::Backspace),
        0x0d => Some(UiKey::Enter),
        0x20 => Some(UiKey::Space),
        0x2d => Some(UiKey::Insert),
        0x2e => Some(UiKey::Delete),
        0x24 => Some(UiKey::Home),
        0x23 => Some(UiKey::End),
        0x21 => Some(UiKey::PageUp),
        0x22 => Some(UiKey::PageDown),
        0x6d => Some(UiKey::Minus),
        0x6b => Some(UiKey::PlusEquals),
        0x30 | 0x60 => Some(UiKey::Num0),
        0x31 | 0x61 => Some(UiKey::Num1),
        0x32 | 0x62 => Some(UiKey::Num2),
        0x33 | 0x63 => Some(UiKey::Num3),
        0x34 | 0x64 => Some(UiKey::Num4),
        0x35 | 0x65 => Some(UiKey::Num5),
        0x36 | 0x66 => Some(UiKey::Num6),
        0x37 | 0x67 => Some(UiKey::Num7),
        0x38 | 0x68 => Some(UiKey::Num8),
        0x39 | 0x69 => Some(UiKey::Num9),
        0x41 => Some(UiKey::A),
        0x42 => Some(UiKey::B),
        0x43 => Some(UiKey::C),
        0x44 => Some(UiKey::D),
        0x45 => Some(UiKey::E),
        0x46 => Some(UiKey::F),
        0x47 => Some(UiKey::G),
        0x48 => Some(UiKey::H),
        0x49 => Some(UiKey::I),
        0x4a => Some(UiKey::J),
        0x4b => Some(UiKey::K),
        0x4c => Some(UiKey::L),
        0x4d => Some(UiKey::M),
        0x4e => Some(UiKey::N),
        0x4f => Some(UiKey::O),
        0x50 => Some(UiKey::P),
        0x51 => Some(UiKey::Q),
        0x52 => Some(UiKey::R),
        0x53 => Some(UiKey::S),
        0x54 => Some(UiKey::T),
        0x55 => Some(UiKey::U),
        0x56 => Some(UiKey::V),
        0x57 => Some(UiKey::W),
        0x58 => Some(UiKey::X),
        0x59 => Some(UiKey::Y),
        0x5a => Some(UiKey::Z),
        0x70 => Some(UiKey::F1),
        0x71 => Some(UiKey::F2),
        0x72 => Some(UiKey::F3),
        0x73 => Some(UiKey::F4),
        0x74 => Some(UiKey::F5),
        0x75 => Some(UiKey::F6),
        0x76 => Some(UiKey::F7),
        0x77 => Some(UiKey::F8),
        0x78 => Some(UiKey::F9),
        0x79 => Some(UiKey::F10),
        0x7a => Some(UiKey::F11),
        0x7b => Some(UiKey::F12),
        0x7c => Some(UiKey::F13),
        0x7d => Some(UiKey::F14),
        0x7e => Some(UiKey::F15),
        0x7f => Some(UiKey::F16),
        0x80 => Some(UiKey::F17),
        0x81 => Some(UiKey::F18),
        0x82 => Some(UiKey::F19),
        0x83 => Some(UiKey::F20),
        _ => None,
    }
}

/// Raw per-player stats the edge reads out of the game for one player.
pub struct PlayerRawStats {
    /// Player name, already defaulted by the edge if the game gave none.
    pub name: String,
    /// Panel color, RGB.
    pub color: [u8; 3],
    /// Race index; anything above 2 means unknown.
    pub race: u8,
    pub minerals: u32,
    pub gas: u32,
    /// Per race (zerg, terran, protoss): supply used, provided and cap, in
    /// the game's internal half-units.
    pub supplies_raw: [(u32, u32, u32); 3],
    /// Completed counts of the three worker unit types.
    pub workers: [u32; 3],
}

/// One row of the replay resource panel.
pub struct PlayerInfo {
    pub name: String,
    pub color: [u8; 3],
    pub race: u8,
    pub minerals: u32,
    pub gas: u32,
    /// Per race: shown (current, maximum) supply.
    pub supplies: [(u32, u32); 3],
    pub workers: u32,
}

/// The supply pair the panel shows for one race: the game counts supply in
/// half-units (a small unit takes one half), so used supply is rounded up
/// and the available supply is the smaller of provided and cap, halved.
pub open spec fn spec_supply_shown(used: int, provided: int, max: int) -> (int, int) {
    let avail = if provided <= max {
        provided
    } else {
        max
    };
    (((used + 1) % 0x1_0000_0000) / 2, avail / 2)
}

/// Reduces one player's raw stats to the panel row: supply rounding and
/// capping per race, the total worker count (wrapping like the game's own
/// counters), and the race index clamped into range.
pub fn player_resources_info(raw: &PlayerRawStats, name: String) -> (r: PlayerInfo)
    ensures
        r.name == name,
        r.color == raw.color,
        r.race == if raw.race > 2 {
            0u8
        } else {
            raw.race
        },
        r.minerals == raw.minerals,
        r.gas == raw.gas,
        forall|i: int|
            0 <= i < 3 ==> ((#[trigger] r.supplies[i]).0 as int, r.supplies[i].1 as int)
                == spec_supply_shown(
                raw.supplies_raw[i].0 as int,
                raw.supplies_raw[i].1 as int,
                raw.supplies_raw[i].2 as int,
            ),
        r.workers as int == (raw.workers[0] + raw.workers[1] + raw.workers[2]) % 0x1_0000_0000,
{
    let mut supplies: [(u32, u32); 3] = [(0, 0); 3];
    let mut i: usize = 0;
    while i < 3
        invariant
            i <= 3,
            forall|j: int|
                0 <= j < i ==> ((#[trigger] supplies[j]).0 as int, supplies[j].1 as int)
                    == spec_supply_shown(
                    raw.supplies_raw[j].0 as int,
                    raw.supplies_raw[j].1 as int,
                    raw.supplies_raw[j].2 as int,
                ),
        decreases 3 - i,
    {
        let entry = raw.supplies_raw[i];
        let avail = if entry.1 <= entry.2 {
            entry.1
        } else {
            entry.2
        };
        supplies[i] = (entry.0.wrapping_add(1) / 2, avail / 2);
        i = i + 1;
    }
    let workers = raw.workers[0].wrapping_add(raw.workers[1]).wrapping_add(raw.workers[2]);
    proof {
        let sum = raw.workers[0] as int + raw.workers[1] as int + raw.workers[2] as int;
        assert(workers == sum || workers == sum - 0x1_0000_0000 || workers == sum - 2
            * 0x1_0000_0000);
        if workers == sum {
            lemma_mod_multiples_vanish(0, workers as int, 0x1_0000_0000);
        } else if workers == sum - 0x1_0000_0000 {
            lemma_mod_multiples_vanish(1, workers as int, 0x1_0000_0000);
        } else {
            lemma_mod_multiples_vanish(2, workers as int, 0x1_0000_0000);
        }
        lemma_small_mod(workers as nat, 0x1_0000_0000);
        assert(workers as int == sum % 0x1_0000_0000);
    }
    let race = if raw.race > 2 {
        0
    } else {
        raw.race
    };
    PlayerInfo {
        name,
        color: raw.color,
        race,
        minerals: raw.minerals,
        gas: raw.gas,
        supplies,
        workers,
    }
}

} // verus!
