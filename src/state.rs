//! The player's progress: the current room and the flags that record what
//! has been found, taken and unlocked, with their save-record text.

use vstd::prelude::*;
use crate::room::{CELL, NUM_ROOMS};
use crate::text::{
    bool_text, chars_of, decimal, lemma_lines_terminated, lemma_parse_bool, lemma_parse_decimal,
    lemma_split_terminated, lemma_terminated_plain, lemma_terminated_push, lines, lines_of,
    parse_bool, parse_usize, push_bool, push_char, push_decimal, read_bool, read_usize, terminated,
};

verus! {

/// One of the progress flags of a [`State`].
#[derive(Clone, Copy, Debug, PartialEq, Eq, Structural)]
pub enum Flag {
    ExaminedWall,
    TookKey,
    TookBroom,
    TookNail,
    MetBlimpo,
    FinalRoomUnlocked,
}

/// The game state: where the player is and which progress flags are set.
#[derive(Clone, Copy, Debug, PartialEq, Eq, Structural)]
pub struct State {
    pub curr_room: usize,
    pub examined_wall: bool,
    pub took_key: bool,
    pub took_broom: bool,
    pub took_nail: bool,
    pub met_blimpo: bool,
    pub final_room_unlocked: bool,
}

/// The lines that write a state, one field each.
pub open spec fn state_lines(s: State) -> Seq<Seq<char>> {
    seq![
        decimal(s.curr_room as nat),
        bool_text(s.examined_wall),
        bool_text(s.took_key),
        bool_text(s.took_broom),
        bool_text(s.took_nail),
        bool_text(s.met_blimpo),
        bool_text(s.final_room_unlocked),
    ]
}

/// The save-record text of a state: its lines, each ended by a newline, and
/// the `~` that closes the state's block.
pub open spec fn state_text(s: State) -> Seq<char> {
    terminated(state_lines(s)).push('~')
}

/// The state that `text` writes: its first seven lines must be a room
/// identifier below `NUM_ROOMS` and six boolean literals; later lines are
/// ignored. `None` when that is not so.
pub open spec fn parse_state(text: Seq<char>) -> Option<State> {
    let ls = lines(text);
    if ls.len() >= 7 && parse_usize(ls[0]) is Some && parse_usize(ls[0])->0 < NUM_ROOMS
        && parse_bool(ls[1]) is Some && parse_bool(ls[2]) is Some && parse_bool(ls[3]) is Some
        && parse_bool(ls[4]) is Some && parse_bool(ls[5]) is Some && parse_bool(ls[6]) is Some {
        Some(
            State {
                curr_room: parse_usize(ls[0])->0,
                examined_wall: parse_bool(ls[1])->0,
                took_key: parse_bool(ls[2])->0,
                took_broom: parse_bool(ls[3])->0,
                took_nail: parse_bool(ls[4])->0,
                met_blimpo: parse_bool(ls[5])->0,
                final_room_unlocked: parse_bool(ls[6])->0,
            },
        )
    } else {
        None
    }
}

impl State {
    /// The player stands in a room of the graph.
    pub open spec fn wf(self) -> bool {
        self.curr_room < NUM_ROOMS
    }

    /// The value of one flag.
    pub open spec fn flag(self, f: Flag) -> bool {
        match f {
            Flag::ExaminedWall => self.examined_wall,
            Flag::TookKey => self.took_key,
            Flag::TookBroom => self.took_broom,
            Flag::TookNail => self.took_nail,
            Flag::MetBlimpo => self.met_blimpo,
            Flag::FinalRoomUnlocked => self.final_room_unlocked,
        }
    }

    /// This state with flag `f` set to `v` and everything else kept.
    pub open spec fn with_flag(self, f: Flag, v: bool) -> State {
        match f {
            Flag::ExaminedWall => State { examined_wall: v, ..self },
            Flag::TookKey => State { took_key: v, ..self },
            Flag::TookBroom => State { took_broom: v, ..self },
            Flag::TookNail => State { took_nail: v, ..self },
            Flag::MetBlimpo => State { met_blimpo: v, ..self },
            Flag::FinalRoomUnlocked => State { final_room_unlocked: v, ..self },
        }
    }

    /// Every flag set in this state is still set in `later`.
    pub open spec fn flags_kept_in(self, later: State) -> bool {
        forall|f: Flag| self.flag(f) ==> #[trigger] later.flag(f)
    }

    /// The state of a new game: in the cell, with no flag set.
    pub fn empty() -> (r: State)
        ensures
            r.curr_room == CELL,
            forall|f: Flag| !#[trigger] r.flag(f),
    {
        State {
            curr_room: CELL,
            examined_wall: false,
            took_key: false,
            took_broom: false,
            took_nail: false,
            met_blimpo: false,
            final_room_unlocked: false,
        }
    }

    /// A state with the given room and flags.
    pub fn new(
        curr_room: usize,
        examined_wall: bool,
        took_key: bool,
        took_broom: bool,
        took_nail: bool,
        met_blimpo: bool,
        final_room_unlocked: bool,
    ) -> (r: State)
        ensures
            r == (State {
                curr_room,
                examined_wall,
                took_key,
                took_broom,
                took_nail,
                met_blimpo,
                final_room_unlocked,
            }),
    {
        State {
            curr_room,
            examined_wall,
            took_key,
            took_broom,
            took_nail,
            met_blimpo,
            final_room_unlocked,
        }
    }

    /// This state with one flag replaced: `change` names the flag and its
    /// new value. The room cannot be changed this way.
    pub fn update(&self, change: (Flag, bool)) -> (r: State)
        ensures
            r == self.with_flag(change.0, change.1),
    {
        let (f, v) = change;
        match f {
            Flag::ExaminedWall => State { examined_wall: v, ..*self },
            Flag::TookKey => State { took_key: v, ..*self },
            Flag::TookBroom => State { took_broom: v, ..*self },
            Flag::TookNail => State { took_nail: v, ..*self },
            Flag::MetBlimpo => State { met_blimpo: v, ..*self },
            Flag::FinalRoomUnlocked => State { final_room_unlocked: v, ..*self },
        }
    }

    /// The save-record text of this state.
    pub fn serialize(&self) -> (r: String)
        ensures
            r@ == state_text(*self),
    {
        let ghost ls = state_lines(*self);
        let mut out = String::new();
        push_decimal(&mut out, self.curr_room);
        push_char(&mut out, '\n');
        proof {
            lemma_terminated_push(ls.take(0), ls[0]);
            assert(ls.take(0).push(ls[0]) =~= ls.take(1));
            assert(out@ =~= terminated(ls.take(1)));
        }
        let flags = [
            self.examined_wall,
            self.took_key,
            self.took_broom,
            self.took_nail,
            self.met_blimpo,
            self.final_room_unlocked,
        ];
        for i in 0..6
            invariant
                ls == state_lines(*self),
                flags@ == seq![
                    self.examined_wall,
                    self.took_key,
                    self.took_broom,
                    self.took_nail,
                    self.met_blimpo,
                    self.final_room_unlocked,
                ],
                out@ == terminated(ls.take(i + 1)),
        {
            let ghost before = out@;
            push_bool(&mut out, flags[i]);
            push_char(&mut out, '\n');
            proof {
                assert(ls[i + 1] == bool_text(flags@[i as int]));
                lemma_terminated_push(ls.take(i + 1), ls[i + 1]);
                assert(ls.take(i + 1).push(ls[i + 1]) =~= ls.take(i + 2));
                assert(out@ =~= before + ls[i + 1].push('\n'));
            }
        }
        assert(ls.take(7) =~= ls);
        push_char(&mut out, '~');
        out
    }

    /// The state that `save_data` writes, or `None` where it is malformed.
    pub fn deserialize(save_data: &str) -> (r: Option<State>)
        ensures
            r == parse_state(save_data@),
    {
        state_from_chars(&chars_of(save_data))
    }
}

/// The state that `text` writes, or `None` where it is malformed.
pub fn state_from_chars(text: &Vec<char>) -> (r: Option<State>)
    ensures
        r == parse_state(text@),
{
    let ls = lines_of(text);
    if ls.len() < 7 {
        return None;
    }
    assert(ls@[0]@ == lines(text@)[0] && ls@[1]@ == lines(text@)[1] && ls@[2]@ == lines(text@)[2]);
    assert(ls@[3]@ == lines(text@)[3] && ls@[4]@ == lines(text@)[4]);
    assert(ls@[5]@ == lines(text@)[5] && ls@[6]@ == lines(text@)[6]);
    let curr_room = match read_usize(&ls[0]) {
        Some(n) => n,
        None => return None,
    };
    if curr_room >= NUM_ROOMS {
        return None;
    }
    let examined_wall = match read_bool(&ls[1]) {
        Some(b) => b,
        None => return None,
    };
    let took_key = match read_bool(&ls[2]) {
        Some(b) => b,
        None => return None,
    };
    let took_broom = match read_bool(&ls[3]) {
        Some(b) => b,
        None => return None,
    };
    let took_nail = match read_bool(&ls[4]) {
        Some(b) => b,
        None => return None,
    };
    let met_blimpo = match read_bool(&ls[5]) {
        Some(b) => b,
        None => return None,
    };
    let final_room_unlocked = match read_bool(&ls[6]) {
        Some(b) => b,
        None => return None,
    };
    Some(
        State {
            curr_room,
            examined_wall,
            took_key,
            took_broom,
            took_nail,
            met_blimpo,
            final_room_unlocked,
        },
    )
}

/// The lines of a state hold no newline, `^` or `~`.
pub proof fn lemma_state_lines_plain(s: State)
    ensures
        forall|i: int|
            0 <= i < state_lines(s).len() ==> {
                &&& !(#[trigger] state_lines(s)[i]).contains('\n')
                &&& !state_lines(s)[i].contains('^')
                &&& !state_lines(s)[i].contains('~')
            },
{
    lemma_parse_decimal(s.curr_room);
    lemma_parse_bool(s.examined_wall);
    lemma_parse_bool(s.took_key);
    lemma_parse_bool(s.took_broom);
    lemma_parse_bool(s.took_nail);
    lemma_parse_bool(s.met_blimpo);
    lemma_parse_bool(s.final_room_unlocked);
}

/// A state's text holds no `~` but the one that closes it.
pub proof fn lemma_state_text_shape(s: State)
    ensures
        state_text(s) == terminated(state_lines(s)) + seq!['~'],
        !terminated(state_lines(s)).contains('~'),
{
    lemma_state_lines_plain(s);
    let ls = state_lines(s);
    lemma_split_terminated(ls, Seq::empty());
    assert(terminated(ls) + Seq::empty() =~= terminated(ls));
    assert(terminated(ls).push('~') =~= terminated(ls) + seq!['~']);
    lemma_terminated_plain(ls, '~');
}

/// Reading a state's text gives back the state.
pub proof fn lemma_state_round_trip(s: State)
    requires
        s.wf(),
    ensures
        parse_state(state_text(s)) == Some(s),
        parse_state(terminated(state_lines(s))) == Some(s),
{
    let ls = state_lines(s);
    lemma_state_lines_plain(s);
    lemma_split_terminated(ls, seq!['~']);
    assert(terminated(ls) + seq!['~'] =~= state_text(s));
    assert(lines(state_text(s)) == ls.push(seq!['~']));
    lemma_lines_terminated(ls);
    lemma_parse_decimal(s.curr_room);
    lemma_parse_bool(s.examined_wall);
    lemma_parse_bool(s.took_key);
    lemma_parse_bool(s.took_broom);
    lemma_parse_bool(s.took_nail);
    lemma_parse_bool(s.met_blimpo);
    lemma_parse_bool(s.final_room_unlocked);
}

} // verus!
