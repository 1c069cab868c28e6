use gameserver::data::app::AppData;
use gameserver::data::room::{RoomParams, RoomType};
use gameserver::Error;

fn create(name: &str, player: &str) -> RoomParams {
    RoomParams {
        room_id: None,
        room_name: Some(name.to_string()),
        player: player.to_string(),
        capacity: None,
        room_type: Some(RoomType::DRAW),
        extra_data: None,
    }
}

fn join(id: &str, player: &str) -> RoomParams {
    RoomParams {
        room_id: Some(id.to_string()),
        room_name: None,
        player: player.to_string(),
        capacity: None,
        room_type: None,
        extra_data: None,
    }
}

fn message(e: Error) -> String {
    match e {
        Error::Message(m) => m,
    }
}

#[test]
fn new_room_is_put_last_and_named_in_params() {
    let mut app: AppData<u32> = AppData::new();
    let mut p1 = create("one", "a");
    assert_eq!(app.new_room(&mut p1, 1).unwrap().0, 0);
    let mut p2 = create("two", "b");
    assert_eq!(app.new_room(&mut p2, 2).unwrap().0, 1);
    let rooms = app.rooms();
    assert_eq!(rooms.len(), 2);
    assert_eq!(p1.room_id.as_deref(), Some(rooms[0].room_id.as_str()));
    assert_eq!(p2.room_id.as_deref(), Some(rooms[1].room_id.as_str()));
    assert_eq!(rooms[1].room_name, "two");
    assert_eq!(rooms[1].player_count(), 1);
}

#[test]
fn creator_is_greeted_with_the_room_id() {
    let mut app: AppData<u32> = AppData::new();
    let mut p0 = create("zero", "z");
    app.new_room(&mut p0, 0).unwrap();
    let mut p = create("one", "a");
    let (idx, greeting) = app.new_room(&mut p, 1).unwrap();
    assert_eq!(idx, 1);
    assert_eq!(greeting.recipient, 0);
    assert_eq!(greeting.text, format!("N{}", p.room_id.as_ref().unwrap()));
    assert_eq!(*app.rooms()[idx].player_channel(greeting.recipient), 1);

    let mut q = create("two", "b");
    q.room_id = Some(String::new());
    let (idx, greeting) = app.enter_room(&mut q, 2).unwrap();
    let greeting = greeting.unwrap();
    assert_eq!(idx, 2);
    assert_eq!(greeting.text, format!("N{}", app.rooms()[2].room_id));
    assert_eq!(app.rooms()[2].player_name(greeting.recipient), "b");
}

#[test]
fn refused_room_changes_nothing() {
    let mut app: AppData<u32> = AppData::new();
    let mut p = create("", "a");
    assert_eq!(message(app.new_room(&mut p, 1).err().unwrap()), "Invalid room name");
    assert!(app.rooms().is_empty());
    assert!(p.room_id.is_none());
}

#[test]
fn join_puts_player_in_first_room_of_the_id() {
    let mut app: AppData<u32> = AppData::new();
    let mut p1 = create("one", "a");
    app.new_room(&mut p1, 1).unwrap();
    let mut p2 = create("two", "b");
    app.new_room(&mut p2, 2).unwrap();
    let id = p2.room_id.clone().unwrap();
    assert_eq!(app.join_room(&id, "c".to_string(), 3), Some(1));
    assert_eq!(app.rooms()[1].player_count(), 2);
    assert_eq!(app.rooms()[1].player_name(1), "c");
    assert_eq!(app.rooms()[0].player_count(), 1);
    assert_eq!(app.join_room(&"nope".to_string(), "d".to_string(), 4), None);
    assert_eq!(app.find_room(&id), Some(1));
    assert_eq!(app.find_room(&"nope".to_string()), None);
}

#[test]
fn enter_room_creates_or_joins() {
    let mut app: AppData<u32> = AppData::new();
    let mut p1 = create("one", "a");
    p1.room_id = Some(String::new());
    assert_eq!(app.enter_room(&mut p1, 1).unwrap().0, 0);
    let id = p1.room_id.clone().unwrap();
    assert_eq!(id.len(), 25);
    let mut p2 = join(&id, "b");
    let (idx, greeting) = app.enter_room(&mut p2, 2).unwrap();
    assert_eq!(idx, 0);
    assert!(greeting.is_none());
    assert_eq!(p2.room_id.as_deref(), Some(id.as_str()));
    assert_eq!(app.rooms()[0].player_count(), 2);
    assert_eq!(app.rooms().len(), 1);
}

#[test]
fn enter_unknown_room_is_refused() {
    let mut app: AppData<u32> = AppData::new();
    let mut p = join("missing", "b");
    assert_eq!(message(app.enter_room(&mut p, 2).err().unwrap()), "Cannot find the room");
    assert!(app.rooms().is_empty());
}

#[test]
fn enter_with_bad_settings_is_refused() {
    let mut app: AppData<u32> = AppData::new();
    let mut p = create("one", "a");
    p.room_type = None;
    assert_eq!(message(app.enter_room(&mut p, 2).err().unwrap()), "Unknonw room type");
}

#[test]
fn remove_after_create_restores_the_rooms() {
    let mut app: AppData<u32> = AppData::new();
    let mut p1 = create("one", "a");
    app.new_room(&mut p1, 1).unwrap();
    let before: Vec<String> = app.rooms().iter().map(|r| r.room_id.clone()).collect();
    let mut p2 = create("two", "b");
    app.new_room(&mut p2, 2).unwrap();
    app.remove_room(&p2);
    let after: Vec<String> = app.rooms().iter().map(|r| r.room_id.clone()).collect();
    assert_eq!(before, after);
}

#[test]
fn remove_takes_out_the_named_room_only() {
    let mut app: AppData<u32> = AppData::new();
    let mut ps = vec![create("one", "a"), create("two", "b"), create("three", "c")];
    for (i, p) in ps.iter_mut().enumerate() {
        app.new_room(p, i as u32).unwrap();
    }
    app.remove_room(&ps[1]);
    let rooms = app.rooms();
    assert_eq!(rooms.len(), 2);
    assert_eq!(rooms[0].room_name, "one");
    assert_eq!(rooms[1].room_name, "three");
    assert_eq!(app.find_room(ps[1].room_id.as_ref().unwrap()), None);
}

#[test]
fn remove_of_absent_or_unnamed_room_changes_nothing() {
    let mut app: AppData<u32> = AppData::new();
    let mut p = create("one", "a");
    app.new_room(&mut p, 1).unwrap();
    app.remove_room(&join("missing", "x"));
    app.remove_room(&create("two", "b"));
    assert_eq!(app.rooms().len(), 1);
}

#[test]
fn broadcast_and_to_others_check_the_room() {
    let mut app: AppData<u32> = AppData::new();
    let mut p = create("one", "a");
    app.new_room(&mut p, 1).unwrap();
    let id = p.room_id.clone().unwrap();
    app.join_room(&id, "b".to_string(), 2);
    app.join_room(&id, "c".to_string(), 3);
    assert_eq!(app.broadcast(0, &id), vec![0, 1, 2]);
    assert!(app.broadcast(1, &id).is_empty());
    assert!(app.broadcast(0, &"other".to_string()).is_empty());
    assert_eq!(app.send_message_to_others(0, &id, &"a".to_string()), Some(1));
    assert_eq!(app.send_message_to_others(0, &id, &"b".to_string()), Some(0));
    assert_eq!(app.send_message_to_others(3, &id, &"b".to_string()), None);
}

#[test]
fn every_room_is_valid() {
    let mut app: AppData<u32> = AppData::new();
    for (i, name) in ["a", "bb", "ccc"].iter().enumerate() {
        let mut p = create(name, "x");
        app.new_room(&mut p, i as u32).unwrap();
    }
    for r in app.rooms() {
        assert_eq!(r.room_id.len(), 25);
        assert!(!r.room_name.is_empty() && r.room_name.len() <= 30);
        assert_eq!(r.capacity, 2);
    }
}

#[test]
fn get_room_and_do_acts_on_the_named_room() {
    let mut app: AppData<u32> = AppData::new();
    let mut p1 = create("one", "a");
    app.new_room(&mut p1, 1).unwrap();
    let mut p2 = create("two", "b");
    app.new_room(&mut p2, 2).unwrap();
    let id = p2.room_id.clone().unwrap();
    let n = app.get_room_and_do(&id, |r| {
        r.add_player("c".to_string(), 3);
        r.player_count()
    });
    assert_eq!(n, Some(2));
    assert_eq!(app.rooms()[1].player_count(), 2);
    assert_eq!(app.rooms()[0].player_count(), 1);
    let none = app.get_room_and_do(&"missing".to_string(), |r| r.player_count());
    assert_eq!(none, None);
}
