//! The save record: the state's block, closed by `~`, followed by the
//! records of the roster.

use vstd::prelude::*;
use crate::npcs::{
    lemma_roster_round_trip, npc_views, parse_roster, roster_from_chars, roster_text, serialize,
    Npc, NpcView,
};
use crate::state::{
    lemma_state_round_trip, lemma_state_text_shape, parse_state, state_from_chars, state_lines,
    state_text, State,
};
use crate::text::{chars_of, lemma_split_append, lemma_split_plain, split, split_chars, terminated};

verus! {

/// The save record of a state and a roster.
pub open spec fn save_text(s: State, ns: Seq<NpcView>) -> Seq<char> {
    state_text(s) + roster_text(ns)
}

/// The state and roster that a save record writes: the text before the first
/// `~` is the state's block, the text between it and the next `~` (or the
/// end) the roster. `None` when there is no `~` or either part is malformed.
pub open spec fn parse_save(data: Seq<char>) -> Option<(State, Seq<NpcView>)> {
    let parts = split(data, '~');
    if parts.len() >= 2 && parse_state(parts[0]) is Some && parse_roster(parts[1]) is Some {
        Some((parse_state(parts[0])->0, parse_roster(parts[1])->0))
    } else {
        None
    }
}

/// The save record of `gstate` and `npcs`.
pub fn save_record(gstate: &State, npcs: Vec<Npc>) -> (r: String)
    ensures
        r@ == save_text(*gstate, npc_views(npcs@)),
{
    let mut out = gstate.serialize();
    let roster = serialize(npcs);
    out.append(roster.as_str());
    out
}

/// The state and roster that the save record `data` writes, or `None` where
/// it is malformed.
pub fn load_record(data: &str) -> (r: Option<(State, Vec<Npc>)>)
    ensures
        match r {
            Some((s, ns)) => parse_save(data@) == Some((s, npc_views(ns@))),
            None => parse_save(data@) is None,
        },
{
    let chars = chars_of(data);
    let parts = split_chars(&chars, '~');
    if parts.len() < 2 {
        return None;
    }
    assert(parts@[0]@ == split(data@, '~')[0] && parts@[1]@ == split(data@, '~')[1]);
    let gstate = match state_from_chars(&parts[0]) {
        Some(s) => s,
        None => return None,
    };
    match roster_from_chars(&parts[1]) {
        Some(npcs) => Some((gstate, npcs)),
        None => None,
    }
}

/// Loading what was saved gives back the state and the roster, for a state
/// in a room of the graph and characters whose strings hold no newline, `^`
/// or `~`.
pub proof fn lemma_save_round_trip(s: State, ns: Seq<NpcView>)
    requires
        s.wf(),
        forall|i: int| 0 <= i < ns.len() ==> (#[trigger] ns[i]).plain(),
    ensures
        parse_save(save_text(s, ns)) == Some((s, ns)),
{
    let block = terminated(state_lines(s));
    lemma_state_text_shape(s);
    lemma_state_round_trip(s);
    lemma_roster_round_trip(ns);
    assert(save_text(s, ns) =~= block + seq!['~'] + roster_text(ns));
    lemma_split_append(block, roster_text(ns), '~');
    lemma_split_plain(block, '~');
    assert(split(save_text(s, ns), '~') =~= seq![block, roster_text(ns)]);
}

} // verus!
