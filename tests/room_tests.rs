use text_adventure::room::{get_desc, go_east, go_north, go_south, go_west};

#[test]
fn descriptions_follow_the_flags() {
    assert_eq!(get_desc(0, false, false, false, false), "../data/room/r0text0.txt");
    assert_eq!(get_desc(0, false, true, false, false), "../data/room/r0text1.txt");
    assert_eq!(get_desc(8, false, false, false, true), "../data/room/r8text1.txt");
    assert_eq!(get_desc(11, false, false, true, false), "../data/room/r11text1.txt");
    assert_eq!(get_desc(12, true, false, false, false), "../data/room/r12text1.txt");
    assert_eq!(get_desc(12, false, true, true, true), "../data/room/r12text0.txt");
    assert_eq!(get_desc(5, true, true, true, true), "../data/room/r5text0.txt");
    assert_eq!(get_desc(10, false, false, false, false), "../data/room/r10text0.txt");
}

#[test]
fn the_room_graph() {
    assert_eq!(go_north(12, false, false), (0, "\n\nYou enter the northern room."));
    assert_eq!(go_north(10, false, false).0, 11);
    assert_eq!(go_north(1, false, false), (2, "\n\nYou sally forth!"));
    assert_eq!(go_west(3), (4, "\n\nYou enter the western room."));
    assert_eq!(go_west(8).0, 1);
    assert_eq!(go_west(10).0, 9);
    assert_eq!(go_west(0), (0, "\n\nYou can't go west from here."));
    assert_eq!(go_south(1, false), (0, "\n\nYou nervously head back into your cell..."));
    assert_eq!(go_south(7, false).0, 6);
    assert_eq!(go_south(11, false).0, 10);
    assert_eq!(go_south(0, true).0, 12);
    assert_eq!(go_east(9, false), (10, "\n\nYou enter the eastern room."));
    assert_eq!(go_east(6, false).0, 5);
    assert_eq!(go_east(1, true).0, 8);
    assert_eq!(go_east(2, true), (2, "\n\nYou can't go east from here."));
}
