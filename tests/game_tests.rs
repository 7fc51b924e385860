use text_adventure::game::{go_cmd, look_cmd, move_player, parse_direction, parse_target, talk_cmd, Target};
use text_adventure::npcs::generate_npcs;
use text_adventure::room::{Direction, CELL, FINAL_ROOM, SECRET_ROOM};
use text_adventure::state::State;

#[test]
fn go_cmd_test() {
    let start1 = State::new(2, false, false, false, false, false, false);
    let start2 = State::new(2, false, false, false, false, false, false);
    // Going up from room 2 leads to room 3
    assert_eq!(3, go_cmd(start1, "up").0.curr_room);
    // Going up from room 3 is not possible
    assert_eq!(3, go_cmd(go_cmd(start2, "up").0, "up").0.curr_room);
}

#[test]
fn look_cmd_test_ok() {
    let start = State::new(0, false, false, false, false, false, false);
    assert!(look_cmd(start, "wall").0.examined_wall);
}

#[test]
#[should_panic]
fn look_cmd_test_fail() {
    let start = State::new(1, false, false, false, false, false, false);
    // Looking at the wall outside the cell changes nothing, so this panics.
    assert!(look_cmd(start, "wall").0.examined_wall);
}

#[test]
fn moving_where_there_is_no_exit_changes_nothing() {
    for room in 0..13usize {
        let s = State::new(room, false, false, false, false, false, false);
        for word in ["north", "south", "east", "west"] {
            let (next, _, escaped) = go_cmd(s, word);
            if next.curr_room == room && !escaped {
                assert_eq!(next, s);
            }
        }
    }
    let s = State::new(4, true, true, true, true, true, true);
    let (next, text, escaped) = go_cmd(s, "north");
    assert_eq!(next, s);
    assert!(!escaped);
    assert_eq!(text, "\n\nYou can't go north from here.");
    let (next, text, _) = go_cmd(State::empty(), "west");
    assert_eq!(next, State::empty());
    assert_eq!(text, "\n\nYou can't go west from here.");
}

#[test]
fn locked_exits_keep_the_player_in_place() {
    let cell = State::empty();
    let (next, text, _) = go_cmd(cell, "south");
    assert_eq!(next.curr_room, CELL);
    assert_eq!(text, "\n\nSomethings clearly off about the wall,\nbut you can't just walk through it.");
    let corridor = State::new(1, false, true, false, false, false, false);
    let (next, _, _) = go_cmd(corridor, "east");
    assert_eq!(next.curr_room, 1);
    let guarded = State::new(6, false, true, false, false, true, false);
    let (next, text, _) = go_cmd(guarded, "north");
    assert_eq!(next.curr_room, 6);
    assert_eq!(text, "\n\nThere's an entire human-being in your way, unfortunately.");
    let open = State::new(6, false, true, false, false, true, true);
    assert_eq!(go_cmd(open, "forward").0.curr_room, FINAL_ROOM);
    let smelly = State::new(1, false, true, false, false, true, false);
    assert_eq!(go_cmd(smelly, "right").0.curr_room, 8);
}

#[test]
fn cell_door_needs_the_key() {
    let without_key = State::new(0, true, false, true, true, true, true);
    let (next, text, escaped) = go_cmd(without_key, "north");
    assert_eq!(next.curr_room, 0);
    assert!(!escaped);
    assert_eq!(text, "\n\nThe door is locked tight.");
    let with_key = State::new(0, false, true, false, false, false, false);
    let (next, text, _) = go_cmd(with_key, "north");
    assert_eq!(next.curr_room, 1);
    assert_ne!(next.curr_room, 0);
    assert_eq!(text, "\n\nYou head through the door.\nFreedom! Kind of...");
    assert_eq!(move_player(with_key, Direction::North).0.curr_room, 1);
    assert_eq!(move_player(without_key, Direction::North).0.curr_room, 0);
}

#[test]
fn examining_twice_changes_nothing_more() {
    let s = State::empty();
    let once = look_cmd(s, "wall");
    let twice = look_cmd(once.0, "wall");
    assert_eq!(twice.0.examined_wall, once.0.examined_wall);
    assert_eq!(twice.0, once.0);
    assert_eq!(twice.1, "\n\nYou see the entryway to the secret room.");
}

#[test]
fn new_game_wall_then_south() {
    let s = State::empty();
    assert_eq!(s.curr_room, 0);
    assert!(!s.examined_wall && !s.took_key && !s.took_broom);
    assert!(!s.took_nail && !s.met_blimpo && !s.final_room_unlocked);
    let (s, text) = look_cmd(s, "wall");
    assert!(s.examined_wall);
    assert_eq!(s.curr_room, 0);
    assert!(text.starts_with("\n\nYou see a slight indentation in the wall."));
    let (s, text, _) = go_cmd(s, "south");
    assert_eq!(s.curr_room, SECRET_ROOM);
    assert_eq!(text, "\n\nYou head through the opening and into the strange, small room.");
}

#[test]
fn secret_room_table_gives_the_key_once() {
    let s = State::new(SECRET_ROOM, true, false, false, false, false, false);
    let (s1, text) = look_cmd(s, "table");
    assert!(s1.took_key);
    assert_eq!(
        text,
        "\n\nYou walk up to the table and look at it more closely.\nOn the table there is a key and nothing else.\nYou take the key with trembling fingers."
    );
    let (s2, text) = look_cmd(s1, "table");
    assert_eq!(s2, s1);
    assert_eq!(text, "\n\nThe table is now empty...");
}

#[test]
fn examining_elsewhere_or_unknown_things() {
    let s = State::empty();
    let (next, text) = look_cmd(s, "table");
    assert_eq!(next, s);
    assert_eq!(text, "\n\nHmmm...there aren't any tables around you...");
    let (next, text) = look_cmd(s, "door");
    assert_eq!(next, s);
    assert_eq!(text, "\n\nCan't examine door.");
    let (next, text) = look_cmd(s, "self");
    assert_eq!(next, s);
    assert_eq!(text, "\n\nThat's a little vain, isn't it?");
    let broom_room = State::new(11, false, false, false, false, false, false);
    assert!(look_cmd(broom_room, "broom").0.took_broom);
    let smelly = State::new(8, false, false, false, false, true, false);
    assert!(look_cmd(smelly, "nail").0.took_nail);
    assert_eq!(parse_target("nail"), Some(Target::Nail));
    assert_eq!(parse_target("Nail"), None);
}

#[test]
fn invalid_direction_is_reported() {
    let s = State::empty();
    let (next, text, escaped) = go_cmd(s, "sideways");
    assert_eq!(next, s);
    assert!(!escaped);
    assert_eq!(text, "\nsideways is not a valid direction.");
    assert_eq!(parse_direction("back"), Some(Direction::South));
    assert_eq!(parse_direction("left"), Some(Direction::West));
    assert_eq!(parse_direction("up"), Some(Direction::North));
    assert_eq!(parse_direction("east"), Some(Direction::East));
    assert_eq!(parse_direction(""), None);
}

#[test]
fn talking_where_nobody_is() {
    let npcs = generate_npcs();
    let s = State::new(4, true, true, false, false, false, false);
    let (after, next, said) = talk_cmd(npcs.clone(), s);
    assert_eq!(after, npcs);
    assert_eq!(next, s);
    assert_eq!(said, None);
}

#[test]
fn the_gatekeeper_quest() {
    let npcs = generate_npcs();
    let s = State::new(6, true, true, false, false, false, false);
    // first meeting: intro, and the smelly cell opens
    let (npcs, s, said) = talk_cmd(npcs, s);
    assert_eq!(said.as_deref(), Some("../data/npc/blimpo/blimpotalk0.txt"));
    assert!(s.met_blimpo);
    assert!(npcs[1].has_been_met);
    // again, without the nail: neutral
    let (npcs, s, said) = talk_cmd(npcs, s);
    assert_eq!(said.as_deref(), Some("../data/npc/blimpo/blimpotalk1.txt"));
    assert!(!s.final_room_unlocked);
    // with the nail: the item is handed over and the quest ends
    let s = s.update((text_adventure::state::Flag::TookNail, true));
    let (npcs, s, said) = talk_cmd(npcs, s);
    assert_eq!(said.as_deref(), Some("../data/npc/blimpo/blimpotalk2.txt"));
    assert!(npcs[1].given_quest_item && npcs[1].quest_done);
    assert!(!s.final_room_unlocked);
    // after the quest: the door is unlocked
    let (npcs, s, said) = talk_cmd(npcs, s);
    assert_eq!(said.as_deref(), Some("../data/npc/blimpo/blimpotalk3.txt"));
    assert!(s.final_room_unlocked);
    assert!(npcs[1].quest_done);
    assert!(!npcs[0].has_been_met);
    assert_eq!(go_cmd(s, "north").0.curr_room, FINAL_ROOM);
}

#[test]
fn the_old_man_takes_the_broom_at_first_meeting() {
    let npcs = generate_npcs();
    let s = State::new(2, true, true, true, false, false, false);
    let (npcs, next, said) = talk_cmd(npcs, s);
    assert_eq!(said.as_deref(), Some("../data/npc/carl/carltalk2.txt"));
    assert_eq!(next, s);
    assert!(npcs[0].has_been_met && npcs[0].given_quest_item && npcs[0].quest_done);
    let (npcs, _, said) = talk_cmd(npcs, s);
    assert_eq!(said.as_deref(), Some("../data/npc/carl/carltalk3.txt"));
    assert!(npcs[0].quest_done);
}

#[test]
fn escaping_from_the_final_room_wins() {
    let s = State::new(FINAL_ROOM, true, true, true, true, true, true);
    let (next, text, escaped) = go_cmd(s, "north");
    assert!(escaped);
    assert_eq!(next, s);
    assert_eq!(text, "\n\nCongratulations!\n\nYou made it!\n");
    let (next, _, escaped) = go_cmd(s, "south");
    assert!(!escaped);
    assert_eq!(next.curr_room, 6);
}

#[test]
fn flags_never_clear_over_a_session() {
    let mut npcs = generate_npcs();
    let mut s = State::empty();
    let steps: [(&str, &str); 16] = [
        ("look", "wall"),
        ("go", "south"),
        ("look", "table"),
        ("go", "north"),
        ("go", "north"),
        ("go", "north"),
        ("talk", ""),
        ("go", "north"),
        ("go", "west"),
        ("go", "west"),
        ("go", "west"),
        ("talk", ""),
        ("talk", ""),
        ("look", "wall"),
        ("go", "east"),
        ("talk", ""),
    ];
    let flags = |s: &State| {
        [s.examined_wall, s.took_key, s.took_broom, s.took_nail, s.met_blimpo, s.final_room_unlocked]
    };
    for (verb, arg) in steps {
        let before = flags(&s);
        match verb {
            "look" => s = look_cmd(s, arg).0,
            "go" => s = go_cmd(s, arg).0,
            _ => {
                let r = talk_cmd(npcs, s);
                npcs = r.0;
                s = r.1;
            }
        }
        let after = flags(&s);
        for i in 0..6 {
            assert!(!before[i] || after[i]);
        }
        assert!(s.curr_room < 13);
    }
    assert!(s.examined_wall && s.took_key && s.met_blimpo);
    assert_eq!(s.curr_room, 5);
}
