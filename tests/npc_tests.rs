use text_adventure::commands::{parse_command, parse_input, parse_menu_choice, Command, MenuChoice};
use text_adventure::npcs::{generate_npcs, Npc};

#[test]
fn dialogue_stages_advance_in_order() {
    let n = Npc::new(
        "Ann".to_string(),
        "i".to_string(),
        "n".to_string(),
        "e".to_string(),
        "d".to_string(),
        3,
    );
    assert!(!n.has_been_met && !n.given_quest_item && !n.quest_done);
    let (n, said) = n.speak();
    assert_eq!(said, "i");
    assert!(n.has_been_met && !n.given_quest_item);
    let (n, said) = n.speak();
    assert_eq!(said, "n");
    assert!(n.has_been_met && !n.given_quest_item);
    let n = n.receive_item();
    assert!(n.given_quest_item && !n.quest_done);
    let (n, said) = n.speak();
    assert_eq!(said, "e");
    assert!(n.quest_done);
    let (n2, said) = n.speak();
    assert_eq!(said, "d");
    assert_eq!(n2, n);
}

#[test]
fn stage_steps_keep_the_rest() {
    let n = Npc::update("Bo", false, false, false, "a", "b", "c", "d", 5);
    assert_eq!(n.name, "Bo");
    assert_eq!(n.location, 5);
    let m = n.meet_player();
    assert!(m.has_been_met && !m.given_quest_item && !m.quest_done);
    let d = n.end_quest();
    assert!(d.has_been_met && d.given_quest_item && d.quest_done);
    assert_eq!(d.monologue_done, "d");
    let g = n.receive_item();
    assert!(g.has_been_met && g.given_quest_item && !g.quest_done);
}

#[test]
fn default_roster() {
    let npcs = generate_npcs();
    assert_eq!(npcs.len(), 2);
    assert_eq!(npcs[0].name, "Carl");
    assert_eq!(npcs[0].location, 2);
    assert_eq!(npcs[1].name, "Blimpo");
    assert_eq!(npcs[1].location, 6);
    assert_eq!(npcs[1].monologue_intro, "../data/npc/blimpo/blimpotalk0.txt");
    assert!(npcs.iter().all(|n| !n.has_been_met && !n.given_quest_item && !n.quest_done));
}

#[test]
fn input_words() {
    assert_eq!(parse_input(Some("NoRTH")), "north");
    assert_eq!(parse_input(Some("Ärger")), "Ärger");
    assert_eq!(parse_input(None), "");
    assert_eq!(parse_command("walk"), Command::Go);
    assert_eq!(parse_command("examine"), Command::Look);
    assert_eq!(parse_command("t"), Command::Talk);
    assert_eq!(parse_command("?"), Command::Help);
    assert_eq!(parse_command("exit"), Command::Quit);
    assert_eq!(parse_command("dance"), Command::Unknown);
    assert_eq!(parse_menu_choice("N"), MenuChoice::New);
    assert_eq!(parse_menu_choice("Continue"), MenuChoice::Continue);
    assert_eq!(parse_menu_choice("q"), MenuChoice::Quit);
    assert_eq!(parse_menu_choice("maybe"), MenuChoice::Invalid);
}
