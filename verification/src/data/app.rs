use vstd::prelude::*;

use crate::data::room::{byte_len, Greeting, RoomData, RoomParams, RoomType, MAX_ROOM_NAME_BYTES};
use crate::data::room_id::is_room_id;
use vstd::utf8::encode_utf8;
use crate::util::result::Error;

verus! {

/// A room such as only `AppData::new_room` makes: a SCRU128 identifier, a
/// name of 1 to 30 bytes, and two places for the drawing game and snake.
pub open spec fn valid_room<S>(room: RoomData<S>) -> bool {
    &&& is_room_id(room.room_id@)
    &&& room.room_name@.len() > 0
    &&& byte_len(room.room_name@) <= MAX_ROOM_NAME_BYTES
    &&& room.room_type != RoomType::UNKNOWN ==> room.capacity == 2
}

/// Every room of the list is valid.
pub open spec fn all_rooms_valid<S>(rooms: Seq<RoomData<S>>) -> bool {
    forall|i: int| 0 <= i < rooms.len() ==> valid_room(#[trigger] rooms[i])
}

/// The position of the first room with the given identifier.
pub open spec fn first_room<S>(rooms: Seq<RoomData<S>>, room_id: Seq<char>) -> Option<int>
    decreases rooms.len(),
{
    if rooms.len() == 0 {
        None
    } else if rooms[0].room_id@ == room_id {
        Some(0)
    } else {
        match first_room(rooms.drop_first(), room_id) {
            Some(i) => Some(i + 1),
            None => None,
        }
    }
}

/// `i` is the position of a room with the given identifier, and no room
/// before it has that identifier.
pub open spec fn is_first_room<S>(rooms: Seq<RoomData<S>>, room_id: Seq<char>, i: int) -> bool {
    &&& 0 <= i < rooms.len()
    &&& rooms[i].room_id@ == room_id
    &&& forall|j: int| 0 <= j < i ==> rooms[j].room_id@ != room_id
}

/// No room of the list has the given identifier.
pub open spec fn no_room<S>(rooms: Seq<RoomData<S>>, room_id: Seq<char>) -> bool {
    forall|j: int| 0 <= j < rooms.len() ==> rooms[j].room_id@ != room_id
}

/// The list of rooms once the first room with the given identifier is gone.
pub open spec fn rooms_without<S>(rooms: Seq<RoomData<S>>, room_id: Seq<char>) -> Seq<RoomData<S>> {
    match first_room(rooms, room_id) {
        Some(i) => rooms.remove(i),
        None => rooms,
    }
}

/// The room at `room_idx` is there and has the identifier `room_id`.
pub open spec fn room_at<S>(rooms: Seq<RoomData<S>>, room_idx: int, room_id: Seq<char>) -> bool {
    0 <= room_idx < rooms.len() && rooms[room_idx].room_id@ == room_id
}

/// A player who gives no room identifier, or an empty one, asks for a new
/// room; any other identifier names a room to join.
pub open spec fn wants_new_room(params: RoomParams) -> bool {
    match params.room_id {
        Some(id) => id@.len() == 0,
        None => true,
    }
}

impl RoomParams {
    /// Whether these settings ask for a new room rather than a place in an
    /// existing one.
    pub fn wants_new_room(&self) -> (res: bool)
        ensures
            res == wants_new_room(*self),
    {
        match &self.room_id {
            Some(id) => id.as_str().is_empty(),
            None => true,
        }
    }
}

/// `first_room` finds the first room with the identifier, and finds nothing
/// only where no room has it.
pub proof fn lemma_first_room<S>(rooms: Seq<RoomData<S>>, room_id: Seq<char>)
    ensures
        first_room(rooms, room_id) matches Some(i) ==> is_first_room(rooms, room_id, i),
        first_room(rooms, room_id) is None ==> no_room(rooms, room_id),
    decreases rooms.len(),
{
    if rooms.len() > 0 && rooms[0].room_id@ != room_id {
        let rest = rooms.drop_first();
        lemma_first_room(rest, room_id);
        assert forall|j: int| 1 <= j < rooms.len() implies rooms[j] == rest[j - 1] by {}
    }
}

/// The position of a room is the first one with its identifier.
pub proof fn lemma_is_first_room<S>(rooms: Seq<RoomData<S>>, room_id: Seq<char>, i: int)
    requires
        is_first_room(rooms, room_id, i),
    ensures
        first_room(rooms, room_id) == Some(i),
{
    lemma_first_room(rooms, room_id);
    if let Some(k) = first_room(rooms, room_id) {
        assert(k == i);
    } else {
        assert(rooms[i].room_id@ != room_id);
    }
}

/// Nothing is found where no room has the identifier.
pub proof fn lemma_no_room<S>(rooms: Seq<RoomData<S>>, room_id: Seq<char>)
    requires
        no_room(rooms, room_id),
    ensures
        first_room(rooms, room_id) is None,
{
    lemma_first_room(rooms, room_id);
    if let Some(k) = first_room(rooms, room_id) {
        assert(rooms[k].room_id@ == room_id);
    }
}

/// A room made under an identifier that no room had is the room that its
/// identifier finds, at the end of the list.
pub proof fn lemma_new_room_is_found<S>(rooms: Seq<RoomData<S>>, room: RoomData<S>)
    requires
        no_room(rooms, room.room_id@),
    ensures
        first_room(rooms.push(room), room.room_id@) == Some(rooms.len() as int),
{
    let all = rooms.push(room);
    assert forall|j: int| 0 <= j < rooms.len() implies all[j].room_id@ != room.room_id@ by {
        assert(all[j] == rooms[j]);
    }
    lemma_is_first_room(all, room.room_id@, rooms.len() as int);
}

/// Closing the room that was made last, under an identifier that no other
/// room had, gives back the rooms as they were before it was made.
pub proof fn lemma_remove_undoes_new_room<S>(rooms: Seq<RoomData<S>>, room: RoomData<S>)
    requires
        no_room(rooms, room.room_id@),
    ensures
        rooms_without(rooms.push(room), room.room_id@) == rooms,
{
    lemma_new_room_is_found(rooms, room);
    assert(rooms.push(room).remove(rooms.len() as int) =~= rooms);
}

/// Closing a room that is not there changes nothing.
pub proof fn lemma_remove_absent<S>(rooms: Seq<RoomData<S>>, room_id: Seq<char>)
    requires
        no_room(rooms, room_id),
    ensures
        rooms_without(rooms, room_id) == rooms,
{
    lemma_no_room(rooms, room_id);
}

/// No two rooms of the list have the same identifier.
pub open spec fn distinct_ids<S>(rooms: Seq<RoomData<S>>) -> bool {
    forall|i: int, j: int|
        0 <= i < rooms.len() && 0 <= j < rooms.len() && i != j ==> rooms[i].room_id@
            != rooms[j].room_id@
}

/// A room made under an identifier that no room had keeps the identifiers
/// distinct.
pub proof fn lemma_new_room_keeps_ids_distinct<S>(rooms: Seq<RoomData<S>>, room: RoomData<S>)
    requires
        distinct_ids(rooms),
        no_room(rooms, room.room_id@),
    ensures
        distinct_ids(rooms.push(room)),
{
    let all = rooms.push(room);
    assert forall|a: int, b: int|
        0 <= a < all.len() && 0 <= b < all.len() && a != b implies all[a].room_id@
        != all[b].room_id@ by {
        if a < rooms.len() {
            assert(all[a] == rooms[a]);
        }
        if b < rooms.len() {
            assert(all[b] == rooms[b]);
        }
    }
}

/// Where identifiers are distinct, a closed room is gone: no room keeps its
/// identifier, one room fewer is left, and the others keep their order.
pub proof fn lemma_remove_closes<S>(rooms: Seq<RoomData<S>>, room_id: Seq<char>)
    requires
        distinct_ids(rooms),
    ensures
        no_room(rooms_without(rooms, room_id), room_id),
        distinct_ids(rooms_without(rooms, room_id)),
        first_room(rooms, room_id) is Some ==> rooms_without(rooms, room_id).len() + 1
            == rooms.len(),
{
    lemma_first_room(rooms, room_id);
    let rest = rooms_without(rooms, room_id);
    if let Some(k) = first_room(rooms, room_id) {
        assert forall|j: int| 0 <= j < rest.len() implies rest[j].room_id@ != room_id by {
            if j < k {
                assert(rest[j] == rooms[j]);
            } else {
                assert(rest[j] == rooms[j + 1]);
            }
        }
        assert forall|a: int, b: int|
            0 <= a < rest.len() && 0 <= b < rest.len() && a != b implies rest[a].room_id@
            != rest[b].room_id@ by {
            let a2 = if a < k { a } else { a + 1 };
            let b2 = if b < k { b } else { b + 1 };
            assert(rest[a] == rooms[a2]);
            assert(rest[b] == rooms[b2]);
        }
    }
}

/// Settings ask for a new room exactly when they give no room identifier,
/// or an empty one; any other identifier leads to joining, whatever the
/// player's name and the other settings.
pub proof fn lemma_wants_new_room(params: RoomParams)
    ensures
        wants_new_room(params) <==> (params.room_id is None || params.room_id->0@.len() == 0),
{
}

/// The room an identifier finds is the first room of the list that bears it;
/// none is found exactly when no room bears it.
pub proof fn lemma_first_room_is_first<S>(rooms: Seq<RoomData<S>>, room_id: Seq<char>, k: int)
    ensures
        first_room(rooms, room_id) == Some(k) <==> {
            &&& 0 <= k < rooms.len()
            &&& rooms[k].room_id@ == room_id
            &&& forall|j: int| 0 <= j < k ==> rooms[j].room_id@ != room_id
        },
        first_room(rooms, room_id) is None <==> forall|j: int|
            0 <= j < rooms.len() ==> rooms[j].room_id@ != room_id,
{
    lemma_first_room(rooms, room_id);
    if 0 <= k < rooms.len() && rooms[k].room_id@ == room_id && forall|j: int|
        0 <= j < k ==> rooms[j].room_id@ != room_id {
        lemma_is_first_room(rooms, room_id, k);
    }
    if forall|j: int| 0 <= j < rooms.len() ==> rooms[j].room_id@ != room_id {
        lemma_no_room(rooms, room_id);
    }
}

/// Closing a room takes out the first room with its identifier and leaves
/// every other room, players included, as it was and in the same order;
/// where no room has the identifier, nothing changes.
pub proof fn lemma_rooms_without<S>(rooms: Seq<RoomData<S>>, room_id: Seq<char>, k: int)
    requires
        0 <= k < rooms.len(),
        rooms[k].room_id@ == room_id,
        forall|j: int| 0 <= j < k ==> rooms[j].room_id@ != room_id,
    ensures
        rooms_without(rooms, room_id).len() == rooms.len() - 1,
        forall|j: int| 0 <= j < k ==> #[trigger] rooms_without(rooms, room_id)[j] == rooms[j],
        forall|j: int|
            k <= j < rooms.len() - 1 ==> #[trigger] rooms_without(rooms, room_id)[j] == rooms[j
                + 1],
{
    lemma_first_room_is_first(rooms, room_id, k);
}

/// Closing a room that no room's identifier names changes nothing.
pub proof fn lemma_rooms_without_absent<S>(rooms: Seq<RoomData<S>>, room_id: Seq<char>)
    requires
        forall|j: int| 0 <= j < rooms.len() ==> rooms[j].room_id@ != room_id,
    ensures
        rooms_without(rooms, room_id) == rooms,
{
    lemma_first_room_is_first(rooms, room_id, 0);
}

/// A valid room has a 25-character identifier of digits and lower-case
/// letters, a name of 1 to 30 bytes, and two places unless it is for
/// another game.
pub proof fn lemma_valid_room<S>(room: RoomData<S>)
    ensures
        valid_room(room) <==> {
            &&& room.room_id@.len() == 25
            &&& forall|i: int|
                0 <= i < 25 ==> ('0' <= #[trigger] room.room_id@[i] && room.room_id@[i] <= '9')
                    || ('a' <= room.room_id@[i] && room.room_id@[i] <= 'z')
            &&& room.room_name@.len() > 0
            &&& encode_utf8(room.room_name@).len() as usize <= 30
            &&& (room.room_type == RoomType::DRAW || room.room_type == RoomType::SNAKE)
                ==> room.capacity == 2
        },
{
    crate::data::room_id::lemma_room_id_shape(room.room_id@);
}

/// A message is routed to the room at the given position only where that
/// room bears the identifier under which the player entered.
pub proof fn lemma_room_at<S>(rooms: Seq<RoomData<S>>, room_idx: int, room_id: Seq<char>)
    ensures
        room_at(rooms, room_idx, room_id) <==> (0 <= room_idx < rooms.len()
            && rooms[room_idx].room_id@ == room_id),
{
}

/// The rooms of the server, in the order in which they were made.
pub struct AppData<S> {
    rooms: Vec<RoomData<S>>,
}

impl<S> View for AppData<S> {
    type V = Seq<RoomData<S>>;

    closed spec fn view(&self) -> Seq<RoomData<S>> {
        self.rooms@
    }
}

impl<S> AppData<S> {
    #[verifier::type_invariant]
    spec fn inv(self) -> bool {
        all_rooms_valid(self.rooms@)
    }

    /// A server with no room.
    pub fn new() -> (app: AppData<S>)
        ensures
            app@ == Seq::<RoomData<S>>::empty(),
    {
        AppData { rooms: Vec::new() }
    }

    /// The rooms, each of them valid.
    pub fn rooms(&self) -> (rooms: &Vec<RoomData<S>>)
        ensures
            rooms@ == self@,
            all_rooms_valid(self@),
    {
        proof {
            use_type_invariant(self);
        }
        &self.rooms
    }

    /// The position of the first room with the given identifier.
    pub fn find_room(&self, room_id: &String) -> (res: Option<usize>)
        ensures
            res matches Some(i) ==> first_room(self@, room_id@) == Some(i as int),
            res is None ==> first_room(self@, room_id@) is None,
    {
        let n = self.rooms.len();
        let mut i: usize = 0;
        while i < n
            invariant
                n == self@.len(),
                i <= n,
                forall|j: int| 0 <= j < i ==> self@[j].room_id@ != room_id@,
            decreases n - i,
        {
            if self.rooms[i].room_id.eq(room_id) {
                proof {
                    lemma_is_first_room(self@, room_id@, i as int);
                }
                return Some(i);
            }
            i = i + 1;
        }
        proof {
            lemma_no_room(self@, room_id@);
        }
        None
    }

    /// Makes the room that the settings ask for, with the asking player in
    /// it, puts it after the others and writes its identifier into the
    /// settings; gives its position and the greeting for its creator.
    /// Settings that cannot make a room change nothing and give the reason.
    pub fn new_room(&mut self, room_params: &mut RoomParams, channel_sender: S) -> (res: Result<
        (usize, Greeting),
        Error,
    >)
        ensures
            all_rooms_valid(final(self)@),
            res is Err <==> old(room_params).refusal() is Some,
            res matches Err(e) ==> {
                &&& e.text() == old(room_params).refusal()->0
                &&& final(self)@ == old(self)@
                &&& *final(room_params) == *old(room_params)
            },
            res matches Ok((i, greeting)) ==> {
                let room = final(self)@[i as int];
                &&& i == old(self)@.len()
                &&& final(self)@ == old(self)@.push(room)
                &&& room.settings_from(*old(room_params))
                &&& is_room_id(room.room_id@)
                &&& room.players() == seq![(old(room_params).player, channel_sender)]
                &&& room.greets(old(room_params).player@, greeting)
                &&& *final(room_params) == (RoomParams {
                    room_id: Some(room.room_id),
                    ..*old(room_params)
                })
            },
    {
        proof {
            use_type_invariant(&*self);
        }
        let (room, greeting) = match RoomData::new(room_params, channel_sender) {
            Ok(r) => r,
            Err(e) => return Err(e),
        };
        room_params.room_id = Some(room.room_id.clone());
        let mut rooms: Vec<RoomData<S>> = Vec::new();
        std::mem::swap(&mut rooms, &mut self.rooms);
        rooms.push(room);
        let i = rooms.len() - 1;
        self.rooms = rooms;
        Ok((i, greeting))
    }

    /// Puts a player, on the given channel, in the first room with the given
    /// identifier and gives that room's position; where there is no such
    /// room nothing changes.
    pub fn join_room(&mut self, room_id: &String, player: String, channel_sender: S) -> (res: Option<
        usize,
    >)
        ensures
            all_rooms_valid(final(self)@),
            first_room(old(self)@, room_id@) is None ==> res is None && final(self)@ == old(self)@,
            first_room(old(self)@, room_id@) matches Some(i) ==> {
                let room = final(self)@[i];
                &&& res matches Some(r) && r as int == i
                &&& final(self)@ == old(self)@.update(i, room)
                &&& room.same_settings(old(self)@[i])
                &&& room.players() == old(self)@[i].players().push((player, channel_sender))
            },
    {
        proof {
            use_type_invariant(&*self);
        }
        let found = self.find_room(room_id);
        proof {
            lemma_first_room(self@, room_id@);
        }
        match found {
            None => None,
            Some(i) => {
                let mut rooms: Vec<RoomData<S>> = Vec::new();
                std::mem::swap(&mut rooms, &mut self.rooms);
                let mut room = rooms.remove(i);
                room.add_player(player, channel_sender);
                rooms.insert(i, room);
                proof {
                    assert(rooms@ =~= old(self)@.update(i as int, room));
                    assert(valid_room(old(self)@[i as int]));
                    assert(all_rooms_valid(rooms@));
                }
                self.rooms = rooms;
                Some(i)
            },
        }
    }

    /// What a player's websocket asks of the server: a new room, made as
    /// `new_room` makes it, or a place in the room that it names, as
    /// `join_room` gives it. A room that cannot be found is refused with
    /// "Cannot find the room". Gives the position of the player's room and,
    /// for a new room, the greeting for its creator.
    pub fn enter_room(&mut self, room_params: &mut RoomParams, channel_sender: S) -> (res: Result<
        (usize, Option<Greeting>),
        Error,
    >)
        ensures
            all_rooms_valid(final(self)@),
            res matches Ok((i, _)) ==> final(room_params).room_id matches Some(id) && room_at(
                final(self)@,
                i as int,
                id@,
            ),
            wants_new_room(*old(room_params)) ==> {
                &&& res is Err <==> old(room_params).refusal() is Some
                &&& res matches Err(e) ==> {
                    &&& e.text() == old(room_params).refusal()->0
                    &&& final(self)@ == old(self)@
                    &&& *final(room_params) == *old(room_params)
                }
                &&& res matches Ok((i, greeting)) ==> {
                    let room = final(self)@[i as int];
                    &&& greeting matches Some(g) && room.greets(old(room_params).player@, g)
                    &&& i == old(self)@.len()
                    &&& final(self)@ == old(self)@.push(room)
                    &&& room.settings_from(*old(room_params))
                    &&& is_room_id(room.room_id@)
                    &&& room.players() == seq![(old(room_params).player, channel_sender)]
                    &&& *final(room_params) == (RoomParams {
                        room_id: Some(room.room_id),
                        ..*old(room_params)
                    })
                }
            },
            !wants_new_room(*old(room_params)) ==> {
                let room_id = old(room_params).room_id->0@;
                &&& *final(room_params) == *old(room_params)
                &&& first_room(old(self)@, room_id) is None ==> {
                    &&& res matches Err(e) && e.text() == "Cannot find the room"@
                    &&& final(self)@ == old(self)@
                }
                &&& first_room(old(self)@, room_id) matches Some(i) ==> {
                    let room = final(self)@[i];
                    &&& res matches Ok((r, greeting)) && r as int == i && greeting is None
                    &&& final(self)@ == old(self)@.update(i, room)
                    &&& room.same_settings(old(self)@[i])
                    &&& room.players() == old(self)@[i].players().push(
                        (old(room_params).player, channel_sender),
                    )
                }
            },
    {
        if room_params.wants_new_room() {
            return match self.new_room(room_params, channel_sender) {
                Ok((i, greeting)) => Ok((i, Some(greeting))),
                Err(e) => Err(e),
            };
        }
        let room_id = match &room_params.room_id {
            Some(id) => id.clone(),
            None => String::new(),
        };
        proof {
            lemma_first_room(self@, room_id@);
        }
        match self.join_room(&room_id, room_params.player.clone(), channel_sender) {
            Some(i) => {
                proof {
                    let k = first_room(old(self)@, room_id@)->0;
                    assert(old(self)@[k].room_id@ == room_id@);
                }
                Ok((i, None))
            },
            None => Err(Error::message("Cannot find the room")),
        }
    }

    /// Closes the first room with the identifier of the settings, sending its
    /// players away; settings without an identifier, or an identifier that
    /// no room has, change nothing.
    pub fn remove_room(&mut self, room_params: &RoomParams)
        ensures
            all_rooms_valid(final(self)@),
            room_params.room_id is None ==> final(self)@ == old(self)@,
            room_params.room_id matches Some(id) ==> final(self)@ == rooms_without(
                old(self)@,
                id@,
            ),
    {
        proof {
            use_type_invariant(&*self);
        }
        let room_id = match &room_params.room_id {
            Some(id) => id,
            None => return ,
        };
        let found = self.find_room(room_id);
        proof {
            lemma_first_room(self@, room_id@);
        }
        match found {
            Some(i) => {
                let mut rooms: Vec<RoomData<S>> = Vec::new();
                std::mem::swap(&mut rooms, &mut self.rooms);
                let mut room = rooms.remove(i);
                room.clear_players();
                proof {
                    assert forall|k: int| 0 <= k < rooms@.len() implies valid_room(
                        #[trigger] rooms@[k],
                    ) by {
                        if k < i {
                            assert(rooms@[k] == old(self)@[k]);
                        } else {
                            assert(rooms@[k] == old(self)@[k + 1]);
                        }
                    }
                }
                self.rooms = rooms;
            },
            None => {},
        }
    }

    /// The players of the room at `room_idx` that a message to everyone goes
    /// to: all of them, where that room is there and has the identifier
    /// `room_id`; none otherwise.
    pub fn broadcast(&self, room_idx: usize, room_id: &String) -> (targets: Vec<usize>)
        ensures
            room_at(self@, room_idx as int, room_id@) ==> targets@ == Seq::new(
                self@[room_idx as int].players().len(),
                |i: int| i as usize,
            ),
            !room_at(self@, room_idx as int, room_id@) ==> targets@ == Seq::<usize>::empty(),
    {
        if room_idx < self.rooms.len() && self.rooms[room_idx].room_id.eq(room_id) {
            self.rooms[room_idx].broadcast_message()
        } else {
            Vec::new()
        }
    }

    /// The player of the room at `room_idx` that a message from `player` to
    /// the others goes to, as `RoomData::send_message_to_others` picks it,
    /// where that room is there and has the identifier `room_id`.
    pub fn send_message_to_others(&self, room_idx: usize, room_id: &String, player: &String) -> (target:
        Option<usize>)
        ensures
            !room_at(self@, room_idx as int, room_id@) ==> target is None,
            room_at(self@, room_idx as int, room_id@) ==> {
                let room = self@[room_idx as int];
                &&& target matches Some(i) ==> room.is_first_other(player@, i as int)
                &&& target is None ==> forall|j: int|
                    0 <= j < room.players().len() ==> room.name_at(j) == player@
            },
    {
        if room_idx < self.rooms.len() && self.rooms[room_idx].room_id.eq(room_id) {
            self.rooms[room_idx].send_message_to_others(player)
        } else {
            None
        }
    }

    /// Runs `callback` on the first room with the given identifier, puts the
    /// room back as the callback left it and gives the callback's result;
    /// where there is no such room nothing runs and nothing changes. The
    /// callback may be run on any valid room and keeps it valid.
    pub fn get_room_and_do<T, F: FnOnce(&mut RoomData<S>) -> T>(
        &mut self,
        room_id: &String,
        callback: F,
    ) -> (res: Option<T>)
        requires
            forall|r: &mut RoomData<S>| valid_room(*r) ==> call_requires(callback, (r,)),
            forall|r: &mut RoomData<S>, t: T|
                valid_room(*r) && call_ensures(callback, (r,), t) ==> valid_room(*final(r)),
        ensures
            all_rooms_valid(final(self)@),
            first_room(old(self)@, room_id@) is None ==> res is None && final(self)@ == old(
                self,
            )@,
            first_room(old(self)@, room_id@) matches Some(i) ==> {
                &&& res is Some
                &&& final(self)@.len() == old(self)@.len()
                &&& exists|r: &mut RoomData<S>|
                    {
                        &&& *r == old(self)@[i]
                        &&& call_ensures(callback, (r,), res->0)
                        &&& final(self)@ == old(self)@.update(i, *final(r))
                    }
            },
    {
        proof {
            use_type_invariant(&*self);
        }
        let found = self.find_room(room_id);
        proof {
            lemma_first_room(self@, room_id@);
        }
        match found {
            None => None,
            Some(i) => {
                let mut rooms: Vec<RoomData<S>> = Vec::new();
                std::mem::swap(&mut rooms, &mut self.rooms);
                let mut room = rooms.remove(i);
                let ghost before = room;
                let result = callback(&mut room);
                proof {
                    assert(exists|rr: &mut RoomData<S>|
                        *rr == before && call_ensures(callback, (rr,), result) && *final(rr) == room);
                }
                rooms.insert(i, room);
                proof {
                    let rr = choose|rr: &mut RoomData<S>|
                        *rr == before && call_ensures(callback, (rr,), result) && *final(rr)
                            == room;
                    assert(rooms@ =~= old(self)@.update(i as int, *final(rr)));
                    assert(valid_room(*final(rr)));
                    assert(all_rooms_valid(rooms@));
                }
                self.rooms = rooms;
                Some(result)
            },
        }
    }
}
} // verus!
