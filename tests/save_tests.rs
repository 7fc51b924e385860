use text_adventure::npcs::{self, generate_npcs, Npc};
use text_adventure::save::{load_record, save_record};
use text_adventure::state::State;

#[test]
fn state_text_is_one_field_per_line() {
    let s = State::new(12, true, false, true, false, true, false);
    assert_eq!(s.serialize(), "12\ntrue\nfalse\ntrue\nfalse\ntrue\nfalse\n~");
    assert_eq!(State::empty().serialize(), "0\nfalse\nfalse\nfalse\nfalse\nfalse\nfalse\n~");
}

#[test]
fn state_reads_back() {
    let s = State::new(9, true, true, false, true, false, true);
    assert_eq!(State::deserialize(&s.serialize()), Some(s));
    assert_eq!(
        State::deserialize("3\ntrue\nfalse\nfalse\nfalse\nfalse\ntrue\n"),
        Some(State::new(3, true, false, false, false, false, true))
    );
    assert_eq!(
        State::deserialize("+7\nfalse\nfalse\nfalse\nfalse\nfalse\nfalse"),
        Some(State::new(7, false, false, false, false, false, false))
    );
}

#[test]
fn malformed_state_is_refused() {
    // too few lines
    assert_eq!(State::deserialize("0\nfalse\nfalse"), None);
    assert_eq!(State::deserialize(""), None);
    // not a number
    assert_eq!(State::deserialize("x\nfalse\nfalse\nfalse\nfalse\nfalse\nfalse\n"), None);
    assert_eq!(State::deserialize("+\nfalse\nfalse\nfalse\nfalse\nfalse\nfalse\n"), None);
    // not a boolean
    assert_eq!(State::deserialize("0\nfalse\nTrue\nfalse\nfalse\nfalse\nfalse\n"), None);
    // a room outside the graph
    assert_eq!(State::deserialize("13\nfalse\nfalse\nfalse\nfalse\nfalse\nfalse\n"), None);
    // a number that does not fit
    assert_eq!(
        State::deserialize("99999999999999999999999\nfalse\nfalse\nfalse\nfalse\nfalse\nfalse\n"),
        None
    );
}

#[test]
fn npc_text_and_back() {
    let carl = generate_npcs()[0].clone();
    assert_eq!(
        carl.serialize(),
        "\n^\nCarl\nfalse\nfalse\nfalse\n../data/npc/carl/carltalk0.txt\n../data/npc/carl/carltalk1.txt\n../data/npc/carl/carltalk2.txt\n../data/npc/carl/carltalk3.txt\n2"
    );
    let record = carl.serialize();
    assert_eq!(Npc::deserialize(&record[2..]), Some(carl));
    assert_eq!(Npc::deserialize("\nCarl\nyes\nfalse\nfalse\na\nb\nc\nd\n2"), None);
    assert_eq!(Npc::deserialize("\nCarl\nfalse\nfalse\nfalse\na\nb\nc\nd"), None);
}

#[test]
fn roster_reads_back_in_order() {
    let roster = generate_npcs();
    let text = npcs::serialize(roster.clone());
    assert_eq!(npcs::deserialize(&text), Some(roster));
    assert_eq!(npcs::deserialize(""), Some(vec![]));
    assert_eq!(npcs::deserialize("\n"), Some(vec![]));
    assert_eq!(npcs::deserialize("\n^\nCarl\nfalse"), None);
}

#[test]
fn save_record_round_trip() {
    let s = State::new(6, true, true, true, false, true, false);
    let mut roster = generate_npcs();
    roster[0] = roster[0].receive_item().speak().0;
    roster[1] = roster[1].speak().0;
    roster.push(Npc::new(
        "Chadrick".to_string(),
        "intro".to_string(),
        "".to_string(),
        "ending".to_string(),
        "done".to_string(),
        8,
    ));
    let record = save_record(&s, roster.clone());
    assert_eq!(load_record(&record), Some((s, roster)));
    let empty = save_record(&State::empty(), vec![]);
    assert_eq!(empty, "0\nfalse\nfalse\nfalse\nfalse\nfalse\nfalse\n~");
    assert_eq!(load_record(&empty), Some((State::empty(), vec![])));
}

#[test]
fn reset_record_is_a_new_game() {
    let record = save_record(&State::empty(), generate_npcs());
    assert_eq!(load_record(&record), Some((State::empty(), generate_npcs())));
}

#[test]
fn malformed_save_record_is_refused() {
    assert_eq!(load_record("0\nfalse\nfalse\nfalse\nfalse\nfalse\nfalse\n"), None);
    assert_eq!(load_record("0\nfalse\nfalse\nfalse\n~"), None);
    assert_eq!(load_record("0\nfalse\nfalse\nfalse\nfalse\nfalse\nfalse\n~\n^\nCarl\n"), None);
}
