//! The room graph: descriptions of each room and the exits in the four
//! directions, some of which open only once a progress flag is set.

use vstd::prelude::*;

verus! {

/// Number of rooms; identifiers run from `0` to `NUM_ROOMS - 1`.
pub const NUM_ROOMS: usize = 13;

/// The room the player starts in.
pub const CELL: usize = 0;

/// The room where the old man waits for a broom.
pub const OLD_MAN_ROOM: usize = 2;

/// The room where the gatekeeper blocks the door to the final room.
pub const GATEKEEPER_ROOM: usize = 6;

/// The room whose northern door is the way out.
pub const FINAL_ROOM: usize = 7;

/// The room where the nail lies.
pub const SMELLY_CELL: usize = 8;

/// The room where the broom stands.
pub const BROOM_ROOM: usize = 11;

/// The room behind the cell's wall, where the key lies.
pub const SECRET_ROOM: usize = 12;

/// A compass direction the player can move in.
#[derive(Clone, Copy, Debug, PartialEq, Eq, Structural)]
pub enum Direction {
    North,
    South,
    East,
    West,
}

/// What lies in some direction from a room.
#[derive(Clone, Copy, Debug, PartialEq, Eq, Structural)]
pub enum Exit {
    /// A passage that can be taken now, to the given room.
    Open(usize),
    /// A passage that a progress flag not yet set keeps shut.
    Locked,
    /// No passage at all.
    Wall,
}

impl Exit {
    /// The room the player is in after trying this exit from `room`.
    pub open spec fn target(self, room: usize) -> usize {
        match self {
            Exit::Open(to) => to,
            _ => room,
        }
    }
}

/// The exit north of `room_index`: the cell's door needs the key, and the
/// door to the final room needs to have been unlocked.
pub open spec fn north_exit(room_index: usize, has_key: bool, final_room_unlocked: bool) -> Exit {
    match room_index {
        0 => if has_key { Exit::Open(1) } else { Exit::Locked },
        1 => Exit::Open(2),
        2 => Exit::Open(3),
        6 => if final_room_unlocked { Exit::Open(7) } else { Exit::Locked },
        10 => Exit::Open(11),
        12 => Exit::Open(0),
        _ => Exit::Wall,
    }
}

/// The exit west of `room_index`; none is gated.
pub open spec fn west_exit(room_index: usize) -> Exit {
    match room_index {
        3 => Exit::Open(4),
        4 => Exit::Open(5),
        5 => Exit::Open(6),
        8 => Exit::Open(1),
        9 => Exit::Open(3),
        10 => Exit::Open(9),
        _ => Exit::Wall,
    }
}

/// The exit south of `room_index`: the opening in the cell's wall shows only
/// once the wall has been examined.
pub open spec fn south_exit(room_index: usize, found_room: bool) -> Exit {
    match room_index {
        0 => if found_room { Exit::Open(12) } else { Exit::Locked },
        1 => Exit::Open(0),
        2 => Exit::Open(1),
        3 => Exit::Open(2),
        7 => Exit::Open(6),
        11 => Exit::Open(10),
        _ => Exit::Wall,
    }
}

/// The exit east of `room_index`: the smelly cell can be entered only after
/// meeting its neighbour.
pub open spec fn east_exit(room_index: usize, met_blimpo: bool) -> Exit {
    match room_index {
        1 => if met_blimpo { Exit::Open(8) } else { Exit::Locked },
        3 => Exit::Open(9),
        4 => Exit::Open(3),
        5 => Exit::Open(4),
        6 => Exit::Open(5),
        9 => Exit::Open(10),
        _ => Exit::Wall,
    }
}

/// The narration shown when trying to go north.
pub open spec fn north_text(room_index: usize, has_key: bool, final_room_unlocked: bool) -> Seq<char> {
    match room_index {
        0 => if has_key {
            "\n\nYou head through the door.\nFreedom! Kind of..."@
        } else {
            "\n\nThe door is locked tight."@
        },
        1 => "\n\nYou sally forth!"@,
        2 => "\n\nYou speedwalk out of the old man's cold stare."@,
        6 => if final_room_unlocked {
            "\n\nWith the door now unlocked, you head through, filled with anxiety."@
        } else {
            "\n\nThere's an entire human-being in your way, unfortunately."@
        },
        10 | 12 => "\n\nYou enter the northern room."@,
        _ => "\n\nYou can't go north from here."@,
    }
}

/// The narration shown when trying to go west.
pub open spec fn west_text(room_index: usize) -> Seq<char> {
    match west_exit(room_index) {
        Exit::Open(_) => "\n\nYou enter the western room."@,
        _ => "\n\nYou can't go west from here."@,
    }
}

/// The narration shown when trying to go south.
pub open spec fn south_text(room_index: usize, found_room: bool) -> Seq<char> {
    match room_index {
        0 => if found_room {
            "\n\nYou head through the opening and into the strange, small room."@
        } else {
            "\n\nSomethings clearly off about the wall,\nbut you can't just walk through it."@
        },
        1 => "\n\nYou nervously head back into your cell..."@,
        2 | 3 => "\n\nYou speedwalk out of the old man's cold stare."@,
        7 | 11 => "\n\nYou enter the southern room."@,
        _ => "\n\nYou can't go south from here."@,
    }
}

/// The narration shown when trying to go east.
pub open spec fn east_text(room_index: usize, met_blimpo: bool) -> Seq<char> {
    match room_index {
        1 => if met_blimpo {
            "\n\nYou ready yourself, take a deep breath, and head into the stench."@
        } else {
            "\n\nThe stench radiating from the cell is unbearable.\nNothing inside looks interesting enough to justify going in."@
        },
        3 | 4 | 5 | 6 | 9 => "\n\nYou enter the eastern room."@,
        _ => "\n\nYou can't go east from here."@,
    }
}

/// The path of the text that describes a room. The cell, the smelly cell,
/// the broom room and the secret room each look different once their secret
/// has been found or their item taken.
pub open spec fn desc_path(
    room_index: usize,
    has_key: bool,
    found_room: bool,
    has_broom: bool,
    has_nail: bool,
) -> Seq<char> {
    match room_index {
        0 => if found_room { "../data/room/r0text1.txt"@ } else { "../data/room/r0text0.txt"@ },
        1 => "../data/room/r1text0.txt"@,
        2 => "../data/room/r2text0.txt"@,
        3 => "../data/room/r3text0.txt"@,
        4 => "../data/room/r4text0.txt"@,
        5 => "../data/room/r5text0.txt"@,
        6 => "../data/room/r6text0.txt"@,
        7 => "../data/room/r7text0.txt"@,
        8 => if has_nail { "../data/room/r8text1.txt"@ } else { "../data/room/r8text0.txt"@ },
        9 => "../data/room/r9text0.txt"@,
        10 => "../data/room/r10text0.txt"@,
        11 => if has_broom { "../data/room/r11text1.txt"@ } else { "../data/room/r11text0.txt"@ },
        _ => if has_key { "../data/room/r12text1.txt"@ } else { "../data/room/r12text0.txt"@ },
    }
}

/// Returns the path of the text that describes `room_index`.
pub fn get_desc(room_index: usize, has_key: bool, found_room: bool, has_broom: bool, has_nail: bool) -> (r: &'static str)
    requires
        room_index < NUM_ROOMS,
    ensures
        r@ == desc_path(room_index, has_key, found_room, has_broom, has_nail),
{
    match room_index {
        0 => if found_room { "../data/room/r0text1.txt" } else { "../data/room/r0text0.txt" },
        1 => "../data/room/r1text0.txt",
        2 => "../data/room/r2text0.txt",
        3 => "../data/room/r3text0.txt",
        4 => "../data/room/r4text0.txt",
        5 => "../data/room/r5text0.txt",
        6 => "../data/room/r6text0.txt",
        7 => "../data/room/r7text0.txt",
        8 => if has_nail { "../data/room/r8text1.txt" } else { "../data/room/r8text0.txt" },
        9 => "../data/room/r9text0.txt",
        10 => "../data/room/r10text0.txt",
        11 => if has_broom { "../data/room/r11text1.txt" } else { "../data/room/r11text0.txt" },
        // the secret room, the last one
        _ => if has_key { "../data/room/r12text1.txt" } else { "../data/room/r12text0.txt" },
    }
}

/// Tries to go north from `room_index`: returns the room the player ends up
/// in and the narration of the attempt.
pub fn go_north(room_index: usize, has_key: bool, final_room_unlocked: bool) -> (r: (usize, &'static str))
    requires
        room_index < NUM_ROOMS,
    ensures
        r.0 == north_exit(room_index, has_key, final_room_unlocked).target(room_index),
        r.1@ == north_text(room_index, has_key, final_room_unlocked),
{
    match room_index {
        0 => if has_key {
            (1, "\n\nYou head through the door.\nFreedom! Kind of...")
        } else {
            (0, "\n\nThe door is locked tight.")
        },
        1 => (2, "\n\nYou sally forth!"),
        2 => (3, "\n\nYou speedwalk out of the old man's cold stare."),
        6 => if final_room_unlocked {
            (7, "\n\nWith the door now unlocked, you head through, filled with anxiety.")
        } else {
            (6, "\n\nThere's an entire human-being in your way, unfortunately.")
        },
        10 => (11, "\n\nYou enter the northern room."),
        12 => (0, "\n\nYou enter the northern room."),
        other => (other, "\n\nYou can't go north from here."),
    }
}

/// Tries to go west from `room_index`: returns the room the player ends up
/// in and the narration of the attempt.
pub fn go_west(room_index: usize) -> (r: (usize, &'static str))
    requires
        room_index < NUM_ROOMS,
    ensures
        r.0 == west_exit(room_index).target(room_index),
        r.1@ == west_text(room_index),
{
    let to: usize = match room_index {
        3 => 4,
        4 => 5,
        5 => 6,
        8 => 1,
        9 => 3,
        10 => 9,
        other => other,
    };
    if to == room_index {
        (to, "\n\nYou can't go west from here.")
    } else {
        (to, "\n\nYou enter the western room.")
    }
}

/// Tries to go south from `room_index`: returns the room the player ends up
/// in and the narration of the attempt.
pub fn go_south(room_index: usize, found_room: bool) -> (r: (usize, &'static str))
    requires
        room_index < NUM_ROOMS,
    ensures
        r.0 == south_exit(room_index, found_room).target(room_index),
        r.1@ == south_text(room_index, found_room),
{
    match room_index {
        0 => if found_room {
            (12, "\n\nYou head through the opening and into the strange, small room.")
        } else {
            (0, "\n\nSomethings clearly off about the wall,\nbut you can't just walk through it.")
        },
        1 => (0, "\n\nYou nervously head back into your cell..."),
        2 => (1, "\n\nYou speedwalk out of the old man's cold stare."),
        3 => (2, "\n\nYou speedwalk out of the old man's cold stare."),
        7 => (6, "\n\nYou enter the southern room."),
        11 => (10, "\n\nYou enter the southern room."),
        other => (other, "\n\nYou can't go south from here."),
    }
}

/// Tries to go east from `room_index`: returns the room the player ends up
/// in and the narration of the attempt.
pub fn go_east(room_index: usize, met_blimpo: bool) -> (r: (usize, &'static str))
    requires
        room_index < NUM_ROOMS,
    ensures
        r.0 == east_exit(room_index, met_blimpo).target(room_index),
        r.1@ == east_text(room_index, met_blimpo),
{
    match room_index {
        1 => if met_blimpo {
            (8, "\n\nYou ready yourself, take a deep breath, and head into the stench.")
        } else {
            (1, "\n\nThe stench radiating from the cell is unbearable.\nNothing inside looks interesting enough to justify going in.")
        },
        3 => (9, "\n\nYou enter the eastern room."),
        4 => (3, "\n\nYou enter the eastern room."),
        5 => (4, "\n\nYou enter the eastern room."),
        6 => (5, "\n\nYou enter the eastern room."),
        9 => (10, "\n\nYou enter the eastern room."),
        other => (other, "\n\nYou can't go east from here."),
    }
}

} // verus!
