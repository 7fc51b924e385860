//! Non-player characters: each stands in one room and moves through a
//! four-stage dialogue, with one monologue per stage.

use vstd::prelude::*;
use crate::text::{
    bool_text, chars_of, decimal, join_lines, lemma_concat_plain, lemma_lines_join,
    lemma_parse_bool, lemma_parse_decimal, lemma_split_append, lemma_split_len, lemma_split_push, lemma_terminated_push,
    lemma_terminated_plain, lines, lines_of, parse_bool, parse_usize, push_bool, push_char,
    push_decimal, read_bool, read_usize, split, split_chars, string_of, terminated, views,
};

verus! {

/// A non-player character: a name, where it stands, how far its dialogue has
/// gone, and the monologue of each dialogue stage.
#[derive(Clone, Debug, PartialEq, Eq)]
pub struct Npc {
    pub name: String,
    pub has_been_met: bool,
    pub given_quest_item: bool,
    pub quest_done: bool,
    pub monologue_intro: String,
    pub monologue_neutral: String,
    pub monologue_ending: String,
    pub monologue_done: String,
    pub location: usize,
}

/// The value of an [`Npc`], with its strings as character sequences.
pub struct NpcView {
    pub name: Seq<char>,
    pub has_been_met: bool,
    pub given_quest_item: bool,
    pub quest_done: bool,
    pub monologue_intro: Seq<char>,
    pub monologue_neutral: Seq<char>,
    pub monologue_ending: Seq<char>,
    pub monologue_done: Seq<char>,
    pub location: usize,
}

/// The stages of a character's dialogue, in the order they are reached.
#[derive(Clone, Copy, Debug, PartialEq, Eq, Structural)]
pub enum Stage {
    Unmet,
    Met,
    ItemGiven,
    QuestDone,
}

impl View for Npc {
    type V = NpcView;

    open spec fn view(&self) -> NpcView {
        NpcView {
            name: self.name@,
            has_been_met: self.has_been_met,
            given_quest_item: self.given_quest_item,
            quest_done: self.quest_done,
            monologue_intro: self.monologue_intro@,
            monologue_neutral: self.monologue_neutral@,
            monologue_ending: self.monologue_ending@,
            monologue_done: self.monologue_done@,
            location: self.location,
        }
    }
}

/// The views of a sequence of characters.
pub open spec fn npc_views(v: Seq<Npc>) -> Seq<NpcView> {
    v.map_values(|n: Npc| n@)
}

impl NpcView {
    /// The stages are reached in order: the item is given only to one who
    /// has been met, and the quest ends only once the item is given.
    pub open spec fn wf(self) -> bool {
        &&& self.given_quest_item ==> self.has_been_met
        &&& self.quest_done ==> self.given_quest_item
    }

    /// The furthest stage reached.
    pub open spec fn stage(self) -> Stage {
        if self.quest_done {
            Stage::QuestDone
        } else if self.given_quest_item {
            Stage::ItemGiven
        } else if self.has_been_met {
            Stage::Met
        } else {
            Stage::Unmet
        }
    }

    /// The character after meeting the player.
    pub open spec fn met(self) -> NpcView {
        NpcView { has_been_met: true, ..self }
    }

    /// The character after receiving its quest item.
    pub open spec fn given_item(self) -> NpcView {
        NpcView { has_been_met: true, given_quest_item: true, ..self }
    }

    /// The character with its quest over.
    pub open spec fn done(self) -> NpcView {
        NpcView { has_been_met: true, given_quest_item: true, quest_done: true, ..self }
    }

    /// The monologue of the current stage.
    pub open spec fn monologue(self) -> Seq<char> {
        match self.stage() {
            Stage::QuestDone => self.monologue_done,
            Stage::ItemGiven => self.monologue_ending,
            Stage::Met => self.monologue_neutral,
            Stage::Unmet => self.monologue_intro,
        }
    }

    /// The character after a conversation: one who had not been met is met,
    /// one who had received the item ends the quest, and the others stay.
    pub open spec fn spoken(self) -> NpcView {
        match self.stage() {
            Stage::QuestDone | Stage::ItemGiven => self.done(),
            Stage::Met | Stage::Unmet => self.met(),
        }
    }

    /// None of the strings holds a newline, `^` or `~`, which the save record
    /// uses as separators.
    pub open spec fn plain(self) -> bool {
        &&& no_separator(self.name)
        &&& no_separator(self.monologue_intro)
        &&& no_separator(self.monologue_neutral)
        &&& no_separator(self.monologue_ending)
        &&& no_separator(self.monologue_done)
    }
}

/// Whether `s` is free of the save record's separators.
pub open spec fn no_separator(s: Seq<char>) -> bool {
    !s.contains('\n') && !s.contains('^') && !s.contains('~')
}

/// The lines that write a character, one field each.
pub open spec fn npc_lines(n: NpcView) -> Seq<Seq<char>> {
    seq![
        n.name,
        bool_text(n.has_been_met),
        bool_text(n.given_quest_item),
        bool_text(n.quest_done),
        n.monologue_intro,
        n.monologue_neutral,
        n.monologue_ending,
        n.monologue_done,
        decimal(n.location as nat),
    ]
}

/// A character's record after its `^`: an empty first line, then its lines.
pub open spec fn npc_body(n: NpcView) -> Seq<char> {
    join_lines(seq![Seq::empty()] + npc_lines(n))
}

/// The save-record text of a character: a newline, the `^` that opens the
/// record, and its body.
pub open spec fn npc_text(n: NpcView) -> Seq<char> {
    seq!['\n', '^'] + npc_body(n)
}

/// The save-record text of a roster: the records of its characters in order.
pub open spec fn roster_text(ns: Seq<NpcView>) -> Seq<char>
    decreases ns.len(),
{
    if ns.len() == 0 {
        Seq::empty()
    } else {
        roster_text(ns.drop_last()) + npc_text(ns.last())
    }
}

/// The character that a record writes: its first line is skipped, the next
/// nine are the name, the three stage flags, the four monologues and the
/// room; later lines are ignored. `None` when that is not so.
pub open spec fn parse_npc(record: Seq<char>) -> Option<NpcView> {
    let ls = lines(record);
    if ls.len() >= 10 && parse_bool(ls[2]) is Some && parse_bool(ls[3]) is Some
        && parse_bool(ls[4]) is Some && parse_usize(ls[9]) is Some {
        Some(
            NpcView {
                name: ls[1],
                has_been_met: parse_bool(ls[2])->0,
                given_quest_item: parse_bool(ls[3])->0,
                quest_done: parse_bool(ls[4])->0,
                monologue_intro: ls[5],
                monologue_neutral: ls[6],
                monologue_ending: ls[7],
                monologue_done: ls[8],
                location: parse_usize(ls[9])->0,
            },
        )
    } else {
        None
    }
}

/// The characters that the records `rs` write, skipping empty ones; `None`
/// if one is malformed.
pub open spec fn parse_records(rs: Seq<Seq<char>>) -> Option<Seq<NpcView>>
    decreases rs.len(),
{
    if rs.len() == 0 {
        Some(Seq::empty())
    } else {
        match parse_records(rs.drop_last()) {
            None => None,
            Some(ns) => if rs.last().len() == 0 {
                Some(ns)
            } else {
                match parse_npc(rs.last()) {
                    Some(n) => Some(ns.push(n)),
                    None => None,
                }
            },
        }
    }
}

/// The roster that `data` writes: the records after each `^`.
pub open spec fn parse_roster(data: Seq<char>) -> Option<Seq<NpcView>> {
    parse_records(split(data, '^').drop_first())
}

/// The roster of a new game.
pub open spec fn default_roster() -> Seq<NpcView> {
    seq![
        NpcView {
            name: "Carl"@,
            has_been_met: false,
            given_quest_item: false,
            quest_done: false,
            monologue_intro: "../data/npc/carl/carltalk0.txt"@,
            monologue_neutral: "../data/npc/carl/carltalk1.txt"@,
            monologue_ending: "../data/npc/carl/carltalk2.txt"@,
            monologue_done: "../data/npc/carl/carltalk3.txt"@,
            location: 2,
        },
        NpcView {
            name: "Blimpo"@,
            has_been_met: false,
            given_quest_item: false,
            quest_done: false,
            monologue_intro: "../data/npc/blimpo/blimpotalk0.txt"@,
            monologue_neutral: "../data/npc/blimpo/blimpotalk1.txt"@,
            monologue_ending: "../data/npc/blimpo/blimpotalk2.txt"@,
            monologue_done: "../data/npc/blimpo/blimpotalk3.txt"@,
            location: 6,
        },
    ]
}

impl Npc {
    /// A character that has not met the player yet.
    pub fn new(
        name: String,
        monologue_intro: String,
        monologue_neutral: String,
        monologue_ending: String,
        monologue_done: String,
        location: usize,
    ) -> (r: Npc)
        ensures
            r@ == (NpcView {
                name: name@,
                has_been_met: false,
                given_quest_item: false,
                quest_done: false,
                monologue_intro: monologue_intro@,
                monologue_neutral: monologue_neutral@,
                monologue_ending: monologue_ending@,
                monologue_done: monologue_done@,
                location,
            }),
    {
        Npc {
            name,
            has_been_met: false,
            given_quest_item: false,
            quest_done: false,
            monologue_intro,
            monologue_neutral,
            monologue_ending,
            monologue_done,
            location,
        }
    }

    /// A character built from copies of the given strings and the given
    /// flags.
    pub fn update(
        name_ref: &str,
        has_been_met: bool,
        given_quest_item: bool,
        quest_done: bool,
        intro_ref: &str,
        neutral_ref: &str,
        ending_ref: &str,
        done_ref: &str,
        location: usize,
    ) -> (r: Npc)
        ensures
            r@ == (NpcView {
                name: name_ref@,
                has_been_met,
                given_quest_item,
                quest_done,
                monologue_intro: intro_ref@,
                monologue_neutral: neutral_ref@,
                monologue_ending: ending_ref@,
                monologue_done: done_ref@,
                location,
            }),
    {
        Npc {
            name: String::from_str(name_ref),
            has_been_met,
            given_quest_item,
            quest_done,
            monologue_intro: String::from_str(intro_ref),
            monologue_neutral: String::from_str(neutral_ref),
            monologue_ending: String::from_str(ending_ref),
            monologue_done: String::from_str(done_ref),
            location,
        }
    }

    /// The character that `data` writes (a record after its `^`), or `None`
    /// where it is malformed.
    pub fn deserialize(data: &str) -> (r: Option<Npc>)
        ensures
            match r {
                Some(n) => parse_npc(data@) == Some(n@),
                None => parse_npc(data@) is None,
            },
    {
        npc_from_chars(&chars_of(data))
    }

    /// The save-record text of this character.
    pub fn serialize(&self) -> (r: String)
        ensures
            r@ == npc_text(self@),
    {
        let ghost lines = seq![Seq::empty()] + npc_lines(self@);
        let mut out = String::new();
        push_char(&mut out, '\n');
        push_char(&mut out, '^');
        let ghost head = out@;
        push_char(&mut out, '\n');
        proof {
            lemma_terminated_push(Seq::empty(), Seq::empty());
            assert(lines.take(1) =~= Seq::<Seq<char>>::empty().push(Seq::empty()));
            assert(out@ =~= head + terminated(lines.take(1)));
        }
        push_line(&mut out, self.name.as_str(), Ghost(head), Ghost(lines), 1);
        push_bool_line(&mut out, self.has_been_met, Ghost(head), Ghost(lines), 2);
        push_bool_line(&mut out, self.given_quest_item, Ghost(head), Ghost(lines), 3);
        push_bool_line(&mut out, self.quest_done, Ghost(head), Ghost(lines), 4);
        push_line(&mut out, self.monologue_intro.as_str(), Ghost(head), Ghost(lines), 5);
        push_line(&mut out, self.monologue_neutral.as_str(), Ghost(head), Ghost(lines), 6);
        push_line(&mut out, self.monologue_ending.as_str(), Ghost(head), Ghost(lines), 7);
        push_line(&mut out, self.monologue_done.as_str(), Ghost(head), Ghost(lines), 8);
        push_decimal(&mut out, self.location);
        assert(lines.drop_last() =~= lines.take(9));
        assert(out@ =~= npc_text(self@));
        out
    }

    /// This character after meeting the player.
    pub fn meet_player(&self) -> (r: Npc)
        ensures
            r@ == self@.met(),
    {
        Npc::update(
            &self.name,
            true,
            self.given_quest_item,
            self.quest_done,
            &self.monologue_intro,
            &self.monologue_neutral,
            &self.monologue_ending,
            &self.monologue_done,
            self.location,
        )
    }

    /// This character after the player has handed over its quest item,
    /// which also means the two have met.
    pub fn receive_item(&self) -> (r: Npc)
        ensures
            r@ == self@.given_item(),
    {
        Npc::update(
            &self.name,
            true,
            true,
            self.quest_done,
            &self.monologue_intro,
            &self.monologue_neutral,
            &self.monologue_ending,
            &self.monologue_done,
            self.location,
        )
    }

    /// This character with its quest over, and so met and given its item.
    pub fn end_quest(&self) -> (r: Npc)
        ensures
            r@ == self@.done(),
    {
        Npc::update(
            &self.name,
            true,
            true,
            true,
            &self.monologue_intro,
            &self.monologue_neutral,
            &self.monologue_ending,
            &self.monologue_done,
            self.location,
        )
    }

    /// A conversation with this character: returns the character afterwards
    /// and the monologue it gives, the one of its stage before the talk.
    pub fn speak(&self) -> (r: (Npc, String))
        ensures
            r.0@ == self@.spoken(),
            r.1@ == self@.monologue(),
    {
        if self.quest_done {
            (self.end_quest(), self.monologue_done.clone())
        } else if self.given_quest_item {
            (self.end_quest(), self.monologue_ending.clone())
        } else if self.has_been_met {
            (self.meet_player(), self.monologue_neutral.clone())
        } else {
            (self.meet_player(), self.monologue_intro.clone())
        }
    }
}

/// The character that `record` writes, or `None` where it is malformed.
pub fn npc_from_chars(record: &Vec<char>) -> (r: Option<Npc>)
    ensures
        match r {
            Some(n) => parse_npc(record@) == Some(n@),
            None => parse_npc(record@) is None,
        },
{
    let ls = lines_of(record);
    if ls.len() < 10 {
        return None;
    }
    let ghost v = lines(record@);
    assert(forall|i: int| 0 <= i < 10 ==> ls@[i]@ == #[trigger] v[i]);
    let has_been_met = match read_bool(&ls[2]) {
        Some(b) => b,
        None => return None,
    };
    let given_quest_item = match read_bool(&ls[3]) {
        Some(b) => b,
        None => return None,
    };
    let quest_done = match read_bool(&ls[4]) {
        Some(b) => b,
        None => return None,
    };
    let location = match read_usize(&ls[9]) {
        Some(n) => n,
        None => return None,
    };
    let n = Npc {
        name: string_of(&ls[1]),
        has_been_met,
        given_quest_item,
        quest_done,
        monologue_intro: string_of(&ls[5]),
        monologue_neutral: string_of(&ls[6]),
        monologue_ending: string_of(&ls[7]),
        monologue_done: string_of(&ls[8]),
        location,
    };
    assert(v[1] == n@.name && v[5] == n@.monologue_intro && v[6] == n@.monologue_neutral);
    assert(v[7] == n@.monologue_ending && v[8] == n@.monologue_done);
    Some(n)
}

/// The roster of a new game.
pub fn generate_npcs() -> (r: Vec<Npc>)
    ensures
        npc_views(r@) == default_roster(),
{
    let r = vec![
        Npc::new(
            String::from_str("Carl"),
            String::from_str("../data/npc/carl/carltalk0.txt"),
            String::from_str("../data/npc/carl/carltalk1.txt"),
            String::from_str("../data/npc/carl/carltalk2.txt"),
            String::from_str("../data/npc/carl/carltalk3.txt"),
            2,
        ),
        Npc::new(
            String::from_str("Blimpo"),
            String::from_str("../data/npc/blimpo/blimpotalk0.txt"),
            String::from_str("../data/npc/blimpo/blimpotalk1.txt"),
            String::from_str("../data/npc/blimpo/blimpotalk2.txt"),
            String::from_str("../data/npc/blimpo/blimpotalk3.txt"),
            6,
        ),
    ];
    assert(npc_views(r@) =~= default_roster());
    r
}

/// The roster that `data` writes (the part of a save record after its `~`),
/// or `None` where a record in it is malformed.
pub fn deserialize(data: &str) -> (r: Option<Vec<Npc>>)
    ensures
        match r {
            Some(ns) => parse_roster(data@) == Some(npc_views(ns@)),
            None => parse_roster(data@) is None,
        },
{
    roster_from_chars(&chars_of(data))
}

/// The roster that `data` writes, or `None` where a record in it is
/// malformed.
pub fn roster_from_chars(data: &Vec<char>) -> (r: Option<Vec<Npc>>)
    ensures
        match r {
            Some(ns) => parse_roster(data@) == Some(npc_views(ns@)),
            None => parse_roster(data@) is None,
        },
{
    let records = split_chars(data, '^');
    proof {
        lemma_split_len(data@, '^');
    }
    let ghost rs = views(records@);
    let mut npcs: Vec<Npc> = Vec::new();
    let mut i: usize = 1;
    assert(rs.subrange(1, 1) =~= Seq::<Seq<char>>::empty());
    while i < records.len()
        invariant
            1 <= i <= records.len(),
            rs == views(records@),
            rs == split(data@, '^'),
            parse_records(rs.subrange(1, i as int)) == Some(npc_views(npcs@)),
        decreases records.len() - i,
    {
        assert(rs.subrange(1, i + 1).drop_last() =~= rs.subrange(1, i as int));
        assert(rs.subrange(1, i + 1).last() == records@[i as int]@);
        if records[i].len() > 0 {
            match npc_from_chars(&records[i]) {
                Some(n) => {
                    let ghost before = npc_views(npcs@);
                    let ghost nv = n@;
                    npcs.push(n);
                    assert(npc_views(npcs@) =~= before.push(nv));
                },
                None => {
                    proof {
                        assert(rs.drop_first().take(i as int) =~= rs.subrange(1, i + 1));
                        lemma_parse_records_fails(rs.drop_first(), i as int);
                    }
                    return None;
                },
            }
        }
        i = i + 1;
    }
    assert(rs.subrange(1, records.len() as int) =~= rs.drop_first());
    Some(npcs)
}

/// Converts a roster into its save-record text.
pub fn serialize(npcs: Vec<Npc>) -> (r: String)
    ensures
        r@ == roster_text(npc_views(npcs@)),
{
    let mut out = String::new();
    for i in 0..npcs.len()
        invariant
            out@ == roster_text(npc_views(npcs@.take(i as int))),
    {
        let text = npcs[i].serialize();
        out.append(text.as_str());
        assert(npc_views(npcs@.take(i + 1)).drop_last() =~= npc_views(npcs@.take(i as int)));
    }
    assert(npcs@.take(npcs.len() as int) =~= npcs@);
    out
}

/// A plain character's record reads back as that character, also when a
/// newline follows it.
pub proof fn lemma_npc_round_trip(n: NpcView)
    requires
        n.plain(),
    ensures
        parse_npc(npc_body(n)) == Some(n),
        parse_npc(npc_body(n).push('\n')) == Some(n),
        npc_body(n).len() > 0,
        !npc_body(n).contains('^'),
        !npc_body(n).contains('~'),
{
    let ls = seq![Seq::empty()] + npc_lines(n);
    lemma_parse_bool(n.has_been_met);
    lemma_parse_bool(n.given_quest_item);
    lemma_parse_bool(n.quest_done);
    lemma_parse_decimal(n.location);
    assert(!Seq::<char>::empty().contains('\n'));
    assert(!Seq::<char>::empty().contains('^'));
    assert(!Seq::<char>::empty().contains('~'));
    assert(forall|i: int| 0 <= i < ls.len() ==> no_separator(#[trigger] ls[i])) by {
        assert(ls[0] == Seq::<char>::empty());
        assert(ls[1] == n.name && ls[5] == n.monologue_intro && ls[6] == n.monologue_neutral);
        assert(ls[7] == n.monologue_ending && ls[8] == n.monologue_done);
        assert(ls[2] == bool_text(n.has_been_met) && ls[3] == bool_text(n.given_quest_item));
        assert(ls[4] == bool_text(n.quest_done) && ls[9] == decimal(n.location as nat));
    }
    lemma_lines_join(ls);
    let init = ls.drop_last();
    assert forall|i: int| 0 <= i < init.len() implies no_separator(#[trigger] init[i]) by {
        assert(init[i] == ls[i]);
    }
    lemma_terminated_plain(init, '^');
    lemma_terminated_plain(init, '~');
    lemma_concat_plain(terminated(init), ls.last(), '^');
    lemma_concat_plain(terminated(init), ls.last(), '~');
}

/// A roster of plain characters reads back as itself, also when a newline
/// follows it; its text holds no `~`.
pub proof fn lemma_roster_round_trip(ns: Seq<NpcView>)
    requires
        forall|i: int| 0 <= i < ns.len() ==> (#[trigger] ns[i]).plain(),
    ensures
        parse_roster(roster_text(ns)) == Some(ns),
        parse_roster(roster_text(ns).push('\n')) == Some(ns),
        !roster_text(ns).contains('~'),
    decreases ns.len(),
{
    if ns.len() == 0 {
        lemma_split_push(Seq::empty(), '\n', '^');
        assert(Seq::<char>::empty().push('\n') =~= roster_text(ns).push('\n'));
        assert(split(Seq::empty(), '^').drop_first() =~= Seq::<Seq<char>>::empty());
        assert(split(roster_text(ns).push('\n'), '^').drop_first() =~= Seq::<Seq<char>>::empty());
        assert(Seq::<NpcView>::empty() =~= ns);
    } else {
        let init = ns.drop_last();
        let n = ns.last();
        assert forall|i: int| 0 <= i < init.len() implies (#[trigger] init[i]).plain() by {
            assert(init[i] == ns[i]);
        }
        assert(n.plain()) by {
            assert(ns[ns.len() - 1] == n);
        }
        lemma_roster_round_trip(init);
        lemma_npc_round_trip(n);
        let rt = roster_text(init);
        let body = npc_body(n);
        lemma_split_len(rt.push('\n'), '^');
        let pieces = split(rt.push('\n'), '^');
        assert(init.push(n) =~= ns);
        // the roster's own text
        assert(roster_text(ns) =~= rt.push('\n') + seq!['^'] + body);
        lemma_split_append(rt.push('\n'), body, '^');
        assert(split(roster_text(ns), '^').drop_first() =~= pieces.drop_first().push(body));
        assert(pieces.drop_first().push(body).drop_last() =~= pieces.drop_first());
        // followed by a newline
        assert(roster_text(ns).push('\n') =~= rt.push('\n') + seq!['^'] + body.push('\n'));
        assert(!body.push('\n').contains('^')) by {
            assert(!seq!['\n'].contains('^')) by {
                if seq!['\n'].contains('^') {
                    assert(seq!['\n'][0] == '^');
                }
            }
            lemma_concat_plain(body, seq!['\n'], '^');
            assert(body + seq!['\n'] =~= body.push('\n'));
        }
        lemma_split_append(rt.push('\n'), body.push('\n'), '^');
        assert(split(roster_text(ns).push('\n'), '^').drop_first() =~= pieces.drop_first().push(
            body.push('\n'),
        ));
        assert(pieces.drop_first().push(body.push('\n')).drop_last() =~= pieces.drop_first());
        // no `~`
        assert(!seq!['\n', '^'].contains('~')) by {
            let h = seq!['\n', '^'];
            if h.contains('~') {
                let i = choose|i: int| 0 <= i < h.len() && h[i] == '~';
            }
        }
        lemma_concat_plain(seq!['\n', '^'], body, '~');
        lemma_concat_plain(rt, npc_text(n), '~');
    }
}

/// Appends `line` and a newline to a record whose lines up to `k` are written.
fn push_line(
    out: &mut String,
    line: &str,
    Ghost(head): Ghost<Seq<char>>,
    Ghost(lines): Ghost<Seq<Seq<char>>>,
    k: usize,
)
    requires
        1 <= k < lines.len(),
        lines[k as int] == line@,
        old(out)@ == head + terminated(lines.take(k as int)),
    ensures
        final(out)@ == head + terminated(lines.take(k + 1)),
{
    out.append(line);
    push_char(out, '\n');
    proof {
        lemma_terminated_push(lines.take(k as int), line@);
        assert(lines.take(k as int).push(line@) =~= lines.take(k + 1));
    }
    assert(out@ =~= head + terminated(lines.take(k + 1)));
}

/// Appends the literal for `b` and a newline to a record whose lines up to
/// `k` are written.
fn push_bool_line(
    out: &mut String,
    b: bool,
    Ghost(head): Ghost<Seq<char>>,
    Ghost(lines): Ghost<Seq<Seq<char>>>,
    k: usize,
)
    requires
        1 <= k < lines.len(),
        lines[k as int] == bool_text(b),
        old(out)@ == head + terminated(lines.take(k as int)),
    ensures
        final(out)@ == head + terminated(lines.take(k + 1)),
{
    push_bool(out, b);
    push_char(out, '\n');
    proof {
        lemma_terminated_push(lines.take(k as int), bool_text(b));
        assert(lines.take(k as int).push(bool_text(b)) =~= lines.take(k + 1));
    }
    assert(out@ =~= head + terminated(lines.take(k + 1)));
}

/// Once a record fails to parse, so does every longer list of records.
proof fn lemma_parse_records_fails(rs: Seq<Seq<char>>, k: int)
    requires
        0 <= k <= rs.len(),
        parse_records(rs.take(k)) is None,
    ensures
        parse_records(rs) is None,
    decreases rs.len() - k,
{
    if k < rs.len() {
        assert(rs.take(k + 1).drop_last() =~= rs.take(k));
        lemma_parse_records_fails(rs, k + 1);
    } else {
        assert(rs.take(k) =~= rs);
    }
}

} // verus!
