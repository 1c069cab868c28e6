use gameserver::data::app::AppData;
use gameserver::data::room::{RoomParams, RoomType};
use gameserver::handler::assets::asset_index;
use gameserver::handler::close_message;
use gameserver::handler::draw::{parse_command, route_message, Command};

#[test]
fn close_message_is_prefixed_with_e() {
    assert_eq!(close_message("Cannot find the room"), "ECannot find the room");
    assert_eq!(close_message(""), "E");
}

#[test]
fn commands_by_first_character() {
    assert_eq!(parse_command("Shello"), Command::ToOthers("hello".to_string()));
    assert_eq!(parse_command("B"), Command::Broadcast(String::new()));
    assert_eq!(parse_command("Bé ü"), Command::Broadcast("é ü".to_string()));
    assert_eq!(parse_command("Xabc"), Command::Ignore);
    assert_eq!(parse_command("s"), Command::Ignore);
}

fn lobby_with_room(players: &[&str]) -> (AppData<u32>, String) {
    let mut app: AppData<u32> = AppData::new();
    let mut p = RoomParams {
        room_id: None,
        room_name: Some("draw".to_string()),
        player: players[0].to_string(),
        capacity: None,
        room_type: Some(RoomType::DRAW),
        extra_data: None,
    };
    app.new_room(&mut p, 0).unwrap();
    let id = p.room_id.unwrap();
    for (i, name) in players.iter().enumerate().skip(1) {
        app.join_room(&id, name.to_string(), i as u32);
    }
    (app, id)
}

#[test]
fn stroke_goes_to_the_other_player() {
    let (app, id) = lobby_with_room(&["a", "b"]);
    let d = route_message(&app, 0, &id, &"a".to_string(), "S10,20");
    assert_eq!(d.recipients, vec![1]);
    assert_eq!(d.text, "10,20");
    let d = route_message(&app, 0, &id, &"b".to_string(), "S10,20");
    assert_eq!(d.recipients, vec![0]);
}

#[test]
fn broadcast_goes_to_all_players() {
    let (app, id) = lobby_with_room(&["a", "b", "c"]);
    let d = route_message(&app, 0, &id, &"a".to_string(), "Bclear");
    assert_eq!(d.recipients, vec![0, 1, 2]);
    assert_eq!(d.text, "clear");
}

#[test]
fn other_messages_go_nowhere() {
    let (app, id) = lobby_with_room(&["a", "b"]);
    let d = route_message(&app, 0, &id, &"a".to_string(), "Qhi");
    assert!(d.recipients.is_empty());
}

#[test]
fn stale_room_index_goes_nowhere() {
    let (app, id) = lobby_with_room(&["a", "b"]);
    let d = route_message(&app, 1, &id, &"a".to_string(), "Bhi");
    assert!(d.recipients.is_empty());
    let d = route_message(&app, 0, &"other".to_string(), &"a".to_string(), "Shi");
    assert!(d.recipients.is_empty());
    assert_eq!(d.text, "hi");
}

#[test]
fn asset_lookup_takes_last_entry_of_a_path() {
    let table: Vec<(&str, &[u8], &str)> = vec![
        ("/a.js", b"1", "text/javascript"),
        ("/b.css", b"2", "text/css"),
        ("/a.js", b"3", "text/javascript"),
    ];
    assert_eq!(asset_index(&table, "/a.js"), Some(2));
    assert_eq!(asset_index(&table, "/b.css"), Some(1));
    assert_eq!(asset_index(&table, "/c.png"), None);
    assert_eq!(asset_index(&[], "/a.js"), None);
}
