//! The commands the player gives: moving, examining things and talking. Each
//! takes the current state by value and returns the next one together with
//! what to show the player.

use vstd::prelude::*;
use crate::npcs::{npc_views, Npc, NpcView};
use crate::room::{
    east_exit, east_text, go_east, go_north, go_south, go_west, north_exit, north_text,
    south_exit, south_text, west_exit, west_text, Direction, Exit, BROOM_ROOM, CELL, FINAL_ROOM,
    GATEKEEPER_ROOM, OLD_MAN_ROOM, SECRET_ROOM, SMELLY_CELL,
};
use crate::state::{Flag, State};
use crate::text::same_text;

verus! {

/// The direction a word names: `north`, `up` or `forward`; `west` or `left`;
/// `south`, `down` or `back`; `east` or `right`.
pub open spec fn direction_of(word: Seq<char>) -> Option<Direction> {
    if word == "north"@ || word == "up"@ || word == "forward"@ {
        Some(Direction::North)
    } else if word == "west"@ || word == "left"@ {
        Some(Direction::West)
    } else if word == "south"@ || word == "down"@ || word == "back"@ {
        Some(Direction::South)
    } else if word == "east"@ || word == "right"@ {
        Some(Direction::East)
    } else {
        None
    }
}

/// What lies in direction `d` from the player's room, given the flags.
pub open spec fn exit(s: State, d: Direction) -> Exit {
    match d {
        Direction::North => north_exit(s.curr_room, s.took_key, s.final_room_unlocked),
        Direction::West => west_exit(s.curr_room),
        Direction::South => south_exit(s.curr_room, s.examined_wall),
        Direction::East => east_exit(s.curr_room, s.met_blimpo),
    }
}

/// The narration of an attempt to move in direction `d`.
pub open spec fn move_text(s: State, d: Direction) -> Seq<char> {
    match d {
        Direction::North => north_text(s.curr_room, s.took_key, s.final_room_unlocked),
        Direction::West => west_text(s.curr_room),
        Direction::South => south_text(s.curr_room, s.examined_wall),
        Direction::East => east_text(s.curr_room, s.met_blimpo),
    }
}

/// The state after an attempt to move in direction `d`: through an open
/// exit the room changes, otherwise nothing does.
pub open spec fn moved(s: State, d: Direction) -> State {
    State { curr_room: exit(s, d).target(s.curr_room), ..s }
}

/// Going north from the final room is the escape that wins the game.
pub open spec fn escapes(s: State, d: Direction) -> bool {
    s.curr_room == FINAL_ROOM && d == Direction::North
}

/// The message shown when the player escapes.
pub open spec fn win_text() -> Seq<char> {
    "\n\nCongratulations!\n\nYou made it!\n"@
}

/// The state after the command to go in the direction `word` names.
pub open spec fn go_state(s: State, word: Seq<char>) -> State {
    match direction_of(word) {
        Some(d) => if escapes(s, d) { s } else { moved(s, d) },
        None => s,
    }
}

/// What the command to go in the direction `word` names shows.
pub open spec fn go_text(s: State, word: Seq<char>) -> Seq<char> {
    match direction_of(word) {
        Some(d) => if escapes(s, d) { win_text() } else { move_text(s, d) },
        None => seq!['\n'] + word + " is not a valid direction."@,
    }
}

/// Whether the command to go in the direction `word` names wins the game.
pub open spec fn go_escapes(s: State, word: Seq<char>) -> bool {
    match direction_of(word) {
        Some(d) => escapes(s, d),
        None => false,
    }
}

/// Reads a direction word.
pub fn parse_direction(word: &str) -> (r: Option<Direction>)
    ensures
        r == direction_of(word@),
{
    if same_text(word, "north") || same_text(word, "up") || same_text(word, "forward") {
        Some(Direction::North)
    } else if same_text(word, "west") || same_text(word, "left") {
        Some(Direction::West)
    } else if same_text(word, "south") || same_text(word, "down") || same_text(word, "back") {
        Some(Direction::South)
    } else if same_text(word, "east") || same_text(word, "right") {
        Some(Direction::East)
    } else {
        None
    }
}

/// Tries to move in direction `dir`: returns the state afterwards and the
/// narration of the attempt.
pub fn move_player(gstate: State, dir: Direction) -> (r: (State, &'static str))
    requires
        gstate.wf(),
    ensures
        r.0 == moved(gstate, dir),
        r.1@ == move_text(gstate, dir),
        r.0.wf(),
{
    let (room, text) = match dir {
        Direction::North => go_north(gstate.curr_room, gstate.took_key, gstate.final_room_unlocked),
        Direction::West => go_west(gstate.curr_room),
        Direction::South => go_south(gstate.curr_room, gstate.examined_wall),
        Direction::East => go_east(gstate.curr_room, gstate.met_blimpo),
    };
    (State { curr_room: room, ..gstate }, text)
}

/// The command to go in the direction `dir` names. Returns the state
/// afterwards, what to show, and whether the player has just escaped, which
/// ends the game; the state is then unchanged.
pub fn go_cmd(gstate: State, dir: &str) -> (r: (State, String, bool))
    requires
        gstate.wf(),
    ensures
        r.0 == go_state(gstate, dir@),
        r.1@ == go_text(gstate, dir@),
        r.2 == go_escapes(gstate, dir@),
        r.0.wf(),
{
    match parse_direction(dir) {
        Some(d) => {
            if gstate.curr_room == FINAL_ROOM && d == Direction::North {
                (gstate, String::from_str("\n\nCongratulations!\n\nYou made it!\n"), true)
            } else {
                let (next, text) = move_player(gstate, d);
                (next, String::from_str(text), false)
            }
        },
        None => {
            let mut text = String::from_str("\n");
            text.append(dir);
            text.append(" is not a valid direction.");
            proof {
                reveal_strlit("\n");
                assert("\n"@ =~= seq!['\n']);
            }
            (gstate, text, false)
        },
    }
}

/// A thing that can be examined; each is found in one room and sets one
/// flag the first time it is examined there.
#[derive(Clone, Copy, Debug, PartialEq, Eq, Structural)]
pub enum Target {
    Wall,
    Table,
    Broom,
    Nail,
}

impl Target {
    /// The room the thing is in.
    pub open spec fn room(self) -> usize {
        match self {
            Target::Wall => CELL,
            Target::Table => SECRET_ROOM,
            Target::Broom => BROOM_ROOM,
            Target::Nail => SMELLY_CELL,
        }
    }

    /// The flag that examining the thing sets.
    pub open spec fn flag(self) -> Flag {
        match self {
            Target::Wall => Flag::ExaminedWall,
            Target::Table => Flag::TookKey,
            Target::Broom => Flag::TookBroom,
            Target::Nail => Flag::TookNail,
        }
    }

    /// The narration of the first examination.
    pub open spec fn found_text(self) -> Seq<char> {
        match self {
            Target::Wall => "\n\nYou see a slight indentation in the wall.\nYou put you hand against it and push gently.\nAs soon as you apply the least bit of pressure,\nthe indentation pushes inward, revealing\na small, dimly lit room."@,
            Target::Table => "\n\nYou walk up to the table and look at it more closely.\nOn the table there is a key and nothing else.\nYou take the key with trembling fingers."@,
            Target::Broom => "\n\nYou walk closer to the broom and take a closer look at it.\nIronically, it's filthy.\nDespite this, you take the broom."@,
            Target::Nail => "\n\nYou approach the cot.\nThe closer you get, the stronger the scent.\nYou quickly grab the nail, without touching the cot itself,\nand move swiftly away from the bed."@,
        }
    }

    /// The narration of a later examination, which finds nothing new.
    pub open spec fn again_text(self) -> Seq<char> {
        match self {
            Target::Wall => "\n\nYou see the entryway to the secret room."@,
            Target::Table => "\n\nThe table is now empty..."@,
            Target::Broom => "\n\nIt's a broom..."@,
            Target::Nail => "\n\nIt's a bent, jagged nail."@,
        }
    }

    /// The narration when the thing is not in the player's room.
    pub open spec fn absent_text(self) -> Seq<char> {
        match self {
            Target::Wall => "\n\nYou look carefully at each wall...for some reason."@,
            Target::Table => "\n\nHmmm...there aren't any tables around you..."@,
            Target::Broom => "\n\nThere are no brooms in sight..."@,
            Target::Nail => "\n\nThere are no nails in sight..."@,
        }
    }
}

/// The thing a word names: `wall`, `table`, `broom` or `nail`.
pub open spec fn target_of(word: Seq<char>) -> Option<Target> {
    if word == "wall"@ {
        Some(Target::Wall)
    } else if word == "table"@ {
        Some(Target::Table)
    } else if word == "broom"@ {
        Some(Target::Broom)
    } else if word == "nail"@ {
        Some(Target::Nail)
    } else {
        None
    }
}

/// The state after examining what `word` names: in the thing's room its
/// flag is set, and nothing else changes.
pub open spec fn examined(s: State, word: Seq<char>) -> State {
    match target_of(word) {
        Some(t) => if s.curr_room == t.room() { s.with_flag(t.flag(), true) } else { s },
        None => s,
    }
}

/// What examining what `word` names shows.
pub open spec fn look_text(s: State, word: Seq<char>) -> Seq<char> {
    match target_of(word) {
        Some(t) => if s.curr_room != t.room() {
            t.absent_text()
        } else if s.flag(t.flag()) {
            t.again_text()
        } else {
            t.found_text()
        },
        None => if word == "self"@ {
            "\n\nThat's a little vain, isn't it?"@
        } else {
            "\n\nCan't examine "@ + word + "."@
        },
    }
}

/// Reads the name of a thing to examine.
pub fn parse_target(word: &str) -> (r: Option<Target>)
    ensures
        r == target_of(word@),
{
    if same_text(word, "wall") {
        Some(Target::Wall)
    } else if same_text(word, "table") {
        Some(Target::Table)
    } else if same_text(word, "broom") {
        Some(Target::Broom)
    } else if same_text(word, "nail") {
        Some(Target::Nail)
    } else {
        None
    }
}

/// The room a thing is in.
fn target_room(t: Target) -> (r: usize)
    ensures
        r == t.room(),
{
    match t {
        Target::Wall => CELL,
        Target::Table => SECRET_ROOM,
        Target::Broom => BROOM_ROOM,
        Target::Nail => SMELLY_CELL,
    }
}

/// The flag examining a thing sets.
fn target_flag(t: Target) -> (r: Flag)
    ensures
        r == t.flag(),
{
    match t {
        Target::Wall => Flag::ExaminedWall,
        Target::Table => Flag::TookKey,
        Target::Broom => Flag::TookBroom,
        Target::Nail => Flag::TookNail,
    }
}

/// The value of flag `f` in `s`.
fn flag_of(s: &State, f: Flag) -> (r: bool)
    ensures
        r == s.flag(f),
{
    match f {
        Flag::ExaminedWall => s.examined_wall,
        Flag::TookKey => s.took_key,
        Flag::TookBroom => s.took_broom,
        Flag::TookNail => s.took_nail,
        Flag::MetBlimpo => s.met_blimpo,
        Flag::FinalRoomUnlocked => s.final_room_unlocked,
    }
}

/// The narration of a first examination.
fn found_narration(t: Target) -> (r: &'static str)
    ensures
        r@ == t.found_text(),
{
    match t {
        Target::Wall => "\n\nYou see a slight indentation in the wall.\nYou put you hand against it and push gently.\nAs soon as you apply the least bit of pressure,\nthe indentation pushes inward, revealing\na small, dimly lit room.",
        Target::Table => "\n\nYou walk up to the table and look at it more closely.\nOn the table there is a key and nothing else.\nYou take the key with trembling fingers.",
        Target::Broom => "\n\nYou walk closer to the broom and take a closer look at it.\nIronically, it's filthy.\nDespite this, you take the broom.",
        Target::Nail => "\n\nYou approach the cot.\nThe closer you get, the stronger the scent.\nYou quickly grab the nail, without touching the cot itself,\nand move swiftly away from the bed.",
    }
}

/// The narration of a later examination.
fn again_narration(t: Target) -> (r: &'static str)
    ensures
        r@ == t.again_text(),
{
    match t {
        Target::Wall => "\n\nYou see the entryway to the secret room.",
        Target::Table => "\n\nThe table is now empty...",
        Target::Broom => "\n\nIt's a broom...",
        Target::Nail => "\n\nIt's a bent, jagged nail.",
    }
}

/// The narration when the thing is elsewhere.
fn absent_narration(t: Target) -> (r: &'static str)
    ensures
        r@ == t.absent_text(),
{
    match t {
        Target::Wall => "\n\nYou look carefully at each wall...for some reason.",
        Target::Table => "\n\nHmmm...there aren't any tables around you...",
        Target::Broom => "\n\nThere are no brooms in sight...",
        Target::Nail => "\n\nThere are no nails in sight...",
    }
}

/// The command to examine what `obj` names. Returns the state afterwards
/// and the narration.
pub fn look_cmd(gstate: State, obj: &str) -> (r: (State, String))
    ensures
        r.0 == examined(gstate, obj@),
        r.1@ == look_text(gstate, obj@),
{
    match parse_target(obj) {
        Some(t) => {
            if gstate.curr_room != target_room(t) {
                (gstate, String::from_str(absent_narration(t)))
            } else if flag_of(&gstate, target_flag(t)) {
                proof {
                    assert(gstate.with_flag(t.flag(), true) == gstate);
                }
                (gstate, String::from_str(again_narration(t)))
            } else {
                (gstate.update((target_flag(t), true)), String::from_str(found_narration(t)))
            }
        },
        None => {
            if same_text(obj, "self") {
                (gstate, String::from_str("\n\nThat's a little vain, isn't it?"))
            } else {
                let mut text = String::from_str("\n\nCan't examine ");
                text.append(obj);
                text.append(".");
                (gstate, text)
            }
        },
    }
}

/// Whether `i` is the index of the first character of `ns` that stands in
/// `room`.
pub open spec fn first_at(ns: Seq<NpcView>, room: usize, i: int) -> bool {
    &&& 0 <= i < ns.len()
    &&& ns[i].location == room
    &&& forall|j: int| 0 <= j < i ==> (#[trigger] ns[j]).location != room
}

/// The index of the first character of `ns` that stands in `room`, if any.
pub open spec fn npc_here(ns: Seq<NpcView>, room: usize) -> Option<int> {
    if exists|i: int| first_at(ns, room, i) {
        Some(choose|i: int| first_at(ns, room, i))
    } else {
        None
    }
}

/// Whether the player carries the item that the character in `room` wants:
/// the old man wants the broom, the gatekeeper the nail.
pub open spec fn carries_item(s: State, room: usize) -> bool {
    ||| room == OLD_MAN_ROOM && s.took_broom
    ||| room == GATEKEEPER_ROOM && s.took_nail
}

/// Whether the player hands `n` its item now: the player carries it and
/// `n` has not received it yet.
pub open spec fn hands_over(s: State, n: NpcView) -> bool {
    carries_item(s, n.location) && !n.given_quest_item
}

/// The character as the player addresses it: holding its item if the
/// player hands it over.
pub open spec fn addressed(s: State, n: NpcView) -> NpcView {
    if hands_over(s, n) {
        n.given_item()
    } else {
        n
    }
}

/// The state after talking to `n`. Talking to the gatekeeper without handing
/// over the nail records that the two have met, or, once its quest is over,
/// unlocks the final room; other conversations change no flag.
pub open spec fn talk_state(s: State, n: NpcView) -> State {
    if n.location == GATEKEEPER_ROOM && !hands_over(s, n) {
        if n.quest_done {
            s.with_flag(Flag::FinalRoomUnlocked, true)
        } else {
            s.with_flag(Flag::MetBlimpo, true)
        }
    } else {
        s
    }
}

/// The roster and state after talking in the player's room, and the
/// monologue heard: `None`, and nothing changed, where nobody is there.
pub open spec fn talk_result(ns: Seq<NpcView>, s: State) -> (Seq<NpcView>, State, Option<Seq<char>>) {
    match npc_here(ns, s.curr_room) {
        None => (ns, s, None),
        Some(i) => (
            ns.update(i, addressed(s, ns[i]).spoken()),
            talk_state(s, ns[i]),
            Some(addressed(s, ns[i]).monologue()),
        ),
    }
}

/// There is only one first character in a room.
proof fn lemma_first_at_unique(ns: Seq<NpcView>, room: usize, i: int, k: int)
    requires
        first_at(ns, room, i),
        first_at(ns, room, k),
    ensures
        i == k,
{
    if i < k {
        assert(ns[i].location != room);
    } else if k < i {
        assert(ns[k].location != room);
    }
}

/// The index of the first character of `npcs` standing in `room`, if any.
fn find_npc(npcs: &Vec<Npc>, room: usize) -> (r: Option<usize>)
    ensures
        match r {
            Some(i) => first_at(npc_views(npcs@), room, i as int),
            None => forall|j: int| 0 <= j < npcs.len() ==> (#[trigger] npcs@[j]).location != room,
        },
{
    let ghost ns = npc_views(npcs@);
    for i in 0..npcs.len()
        invariant
            ns == npc_views(npcs@),
            forall|j: int| 0 <= j < i ==> (#[trigger] npcs@[j]).location != room,
    {
        if npcs[i].location == room {
            assert forall|j: int| 0 <= j < i implies (#[trigger] ns[j]).location != room by {
                assert(ns[j] == npcs@[j]@);
            }
            return Some(i);
        }
    }
    None
}

/// The command to talk to whoever stands in the player's room. Returns the
/// roster and state afterwards, and the monologue heard, or `None` where
/// there is nobody to talk to.
pub fn talk_cmd(npcs: Vec<Npc>, gstate: State) -> (r: (Vec<Npc>, State, Option<String>))
    ensures
        npc_views(r.0@) == talk_result(npc_views(npcs@), gstate).0,
        r.1 == talk_result(npc_views(npcs@), gstate).1,
        match r.2 {
            Some(t) => talk_result(npc_views(npcs@), gstate).2 == Some(t@),
            None => talk_result(npc_views(npcs@), gstate).2 is None,
        },
{
    let ghost ns = npc_views(npcs@);
    let room = gstate.curr_room;
    match find_npc(&npcs, room) {
        None => {
            assert(!exists|i: int| first_at(ns, room, i)) by {
                if exists|i: int| first_at(ns, room, i) {
                    let i = choose|i: int| first_at(ns, room, i);
                    assert(npcs@[i]@ == ns[i]);
                }
            }
            (npcs, gstate, None)
        },
        Some(i) => {
            proof {
                let k = choose|k: int| first_at(ns, room, k);
                lemma_first_at_unique(ns, room, i as int, k);
                assert(ns[i as int] == npcs@[i as int]@);
            }
            let carrying = (room == OLD_MAN_ROOM && gstate.took_broom) || (room == GATEKEEPER_ROOM
                && gstate.took_nail);
            let gives = carrying && !npcs[i].given_quest_item;
            let (after, speech) = if gives {
                npcs[i].receive_item().speak()
            } else {
                npcs[i].speak()
            };
            let next = if room == GATEKEEPER_ROOM && !gives {
                if npcs[i].quest_done {
                    gstate.update((Flag::FinalRoomUnlocked, true))
                } else {
                    gstate.update((Flag::MetBlimpo, true))
                }
            } else {
                gstate
            };
            let mut npcs = npcs;
            let ghost after_view = after@;
            npcs[i] = after;
            assert(npc_views(npcs@) =~= ns.update(i as int, after_view));
            (npcs, next, Some(speech))
        },
    }
}

/// One command of a play session, with the word it was given.
pub enum Action {
    Go(Seq<char>),
    Look(Seq<char>),
    Talk,
}

/// The state and roster after one command.
pub open spec fn perform(s: State, ns: Seq<NpcView>, a: Action) -> (State, Seq<NpcView>) {
    match a {
        Action::Go(word) => (go_state(s, word), ns),
        Action::Look(word) => (examined(s, word), ns),
        Action::Talk => (talk_result(ns, s).1, talk_result(ns, s).0),
    }
}

/// The state and roster after the commands `acts`, in order.
pub open spec fn play(s: State, ns: Seq<NpcView>, acts: Seq<Action>) -> (State, Seq<NpcView>)
    decreases acts.len(),
{
    if acts.len() == 0 {
        (s, ns)
    } else {
        let (s1, ns1) = play(s, ns, acts.drop_last());
        perform(s1, ns1, acts.last())
    }
}

/// Trying to move where there is no exit, or where the exit is still
/// locked, changes nothing: the player stays in the same room.
pub proof fn lemma_no_exit_no_move(s: State, word: Seq<char>, d: Direction)
    requires
        direction_of(word) == Some(d),
        !(exit(s, d) is Open),
    ensures
        moved(s, d) == s,
        go_state(s, word) == s,
{
}

/// From the cell, going north without the key leaves the player in the
/// cell; with the key it leads through the door.
pub proof fn lemma_cell_door(s: State)
    requires
        s.curr_room == CELL,
    ensures
        !s.took_key ==> moved(s, Direction::North).curr_room == CELL,
        s.took_key ==> moved(s, Direction::North).curr_room == 1,
        s.took_key ==> moved(s, Direction::North).curr_room != CELL,
{
}

/// Examining a thing a second time changes nothing more, and tells that
/// nothing new is found.
pub proof fn lemma_examine_idempotent(s: State, word: Seq<char>)
    ensures
        examined(examined(s, word), word) == examined(s, word),
        target_of(word) is Some && s.curr_room == target_of(word)->0.room() ==> look_text(
            examined(s, word),
            word,
        ) == target_of(word)->0.again_text(),
{
    if let Some(t) = target_of(word) {
        if s.curr_room == t.room() {
            let once = examined(s, word);
            assert(once.flag(t.flag()));
            assert(once.with_flag(t.flag(), true) == once);
        }
    }
}

/// One command never clears a flag, and keeps the player in a room of the
/// graph.
pub proof fn lemma_perform_keeps_flags(s: State, ns: Seq<NpcView>, a: Action)
    ensures
        s.flags_kept_in(perform(s, ns, a).0),
        s.wf() ==> perform(s, ns, a).0.wf(),
{
    let next = perform(s, ns, a).0;
    assert forall|f: Flag| s.flag(f) implies #[trigger] next.flag(f) by {
        match a {
            Action::Go(word) => {},
            Action::Look(word) => {},
            Action::Talk => {
                if let Some(i) = npc_here(ns, s.curr_room) {
                    let n = ns[i];
                    assert(next == talk_state(s, n));
                }
            },
        }
    }
    if s.wf() {
        match a {
            Action::Go(word) => {
                if let Some(d) = direction_of(word) {
                    assert(moved(s, d).wf());
                }
            },
            _ => {},
        }
    }
}

/// No sequence of commands ever clears a flag once set, and the player
/// stays in a room of the graph throughout.
pub proof fn lemma_flags_monotonic(s: State, ns: Seq<NpcView>, acts: Seq<Action>)
    ensures
        s.flags_kept_in(play(s, ns, acts).0),
        s.wf() ==> play(s, ns, acts).0.wf(),
    decreases acts.len(),
{
    if acts.len() > 0 {
        lemma_flags_monotonic(s, ns, acts.drop_last());
        let (s1, ns1) = play(s, ns, acts.drop_last());
        lemma_perform_keeps_flags(s1, ns1, acts.last());
        let s2 = play(s, ns, acts).0;
        assert forall|f: Flag| s.flag(f) implies #[trigger] s2.flag(f) by {
            assert(s1.flag(f));
        }
    }
}

/// Talking keeps every character's dialogue stages in order.
pub proof fn lemma_talk_keeps_npcs_wf(ns: Seq<NpcView>, s: State)
    requires
        forall|i: int| 0 <= i < ns.len() ==> (#[trigger] ns[i]).wf(),
    ensures
        forall|i: int|
            0 <= i < talk_result(ns, s).0.len() ==> (#[trigger] talk_result(ns, s).0[i]).wf(),
{
}

} // verus!
