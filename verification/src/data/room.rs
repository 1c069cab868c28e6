use vstd::prelude::*;
use vstd::utf8::encode_utf8;

use crate::data::room_id::{is_room_id, new_room_id};
use crate::util::result::Error;

verus! {

/// The game that a room is for.
#[derive(Clone, Copy, PartialEq, Eq, Structural, Debug)]
pub enum RoomType {
    DRAW,
    SNAKE,
    UNKNOWN,
}

/// What a player asks for when opening a websocket: a room to join
/// (`room_id`), or the settings of a room to create.
pub struct RoomParams {
    pub room_id: Option<String>,
    pub room_name: Option<String>,
    pub player: String,
    pub capacity: Option<u8>,
    pub room_type: Option<RoomType>,
    pub extra_data: Option<String>,
}

/// The text of an optional string, empty where there is none.
pub open spec fn text_or_empty(s: Option<String>) -> Seq<char> {
    match s {
        Some(t) => t@,
        None => Seq::empty(),
    }
}

/// The length in bytes of the UTF-8 encoding of a text, as `str::len`
/// reports it.
pub open spec fn byte_len(s: Seq<char>) -> usize {
    encode_utf8(s).len() as usize
}

/// The most bytes, in UTF-8, that a room's name may take.
pub const MAX_ROOM_NAME_BYTES: usize = 30;

impl RoomParams {
    /// The name asked for, empty where none was given.
    pub open spec fn room_name_text(self) -> Seq<char> {
        text_or_empty(self.room_name)
    }

    /// Why these settings cannot make a room, or `None` where they can. The
    /// checks are made in this order: a room type is given, the player has a
    /// name, the room's name is not empty and takes at most 30 bytes.
    pub open spec fn refusal(self) -> Option<Seq<char>> {
        if self.room_type is None {
            Some("Unknonw room type"@)
        } else if self.player@.len() == 0 {
            Some("Player name is empty"@)
        } else if self.room_name_text().len() == 0 || byte_len(self.room_name_text()) > MAX_ROOM_NAME_BYTES {
            Some("Invalid room name"@)
        } else {
            None
        }
    }

    /// The number of players a room of these settings is for: two for the
    /// drawing game and for snake, and for any other game the capacity asked
    /// for (none asked: zero).
    pub open spec fn capacity_for(self) -> u8 {
        match self.room_type {
            Some(RoomType::UNKNOWN) => match self.capacity {
                Some(c) => c,
                None => 0,
            },
            _ => 2,
        }
    }

    /// Tells why these settings cannot make a room, as `refusal` says.
    pub fn check(&self) -> (res: Option<Error>)
        ensures
            res is Some <==> self.refusal() is Some,
            res matches Some(e) ==> e.text() == self.refusal()->0,
    {
        if self.room_type.is_none() {
            return Some(Error::message("Unknonw room type"));
        }
        if self.player.as_str().is_empty() {
            return Some(Error::message("Player name is empty"));
        }
        let bad_name = match &self.room_name {
            Some(n) => n.as_str().is_empty() || n.as_str().len() > MAX_ROOM_NAME_BYTES,
            None => true,
        };
        if bad_name {
            return Some(Error::message("Invalid room name"));
        }
        None
    }

    /// Makes the room that these settings ask for, under the given
    /// identifier, or says why they cannot make one.
    pub fn as_room_data_with_id<S>(&self, room_id: String) -> (res: Result<RoomData<S>, Error>)
        ensures
            res is Err <==> self.refusal() is Some,
            res matches Err(e) ==> e.text() == self.refusal()->0,
            res matches Ok(room) ==> {
                &&& room.settings_from(*self)
                &&& room.room_id == room_id
                &&& room.players().len() == 0
            },
    {
        if let Some(e) = self.check() {
            return Err(e);
        }
        let room_name = match &self.room_name {
            Some(n) => n.clone(),
            None => String::new(),
        };
        let room_type = match self.room_type {
            Some(t) => t,
            None => RoomType::UNKNOWN,
        };
        let capacity: u8 = match room_type {
            RoomType::DRAW => 2u8,
            RoomType::SNAKE => 2u8,
            RoomType::UNKNOWN => match self.capacity {
                Some(c) => c,
                None => 0u8,
            },
        };
        let extra_data = match &self.extra_data {
            Some(d) => d.clone(),
            None => String::new(),
        };
        Ok(
            RoomData {
                room_id,
                room_name,
                room_type,
                players: Vec::with_capacity(capacity as usize),
                capacity,
                extra_data,
            },
        )
    }

    /// Makes the room that these settings ask for, under a fresh SCRU128
    /// identifier, or says why they cannot make one. No identifier is drawn
    /// for settings that are refused.
    pub fn as_room_data<S>(&self) -> (res: Result<RoomData<S>, Error>)
        ensures
            res is Err <==> self.refusal() is Some,
            res matches Err(e) ==> e.text() == self.refusal()->0,
            res matches Ok(room) ==> {
                &&& room.settings_from(*self)
                &&& is_room_id(room.room_id@)
                &&& room.players().len() == 0
            },
    {
        if let Some(e) = self.check() {
            return Err(e);
        }
        let room_id = new_room_id();
        self.as_room_data_with_id(room_id)
    }
}

/// A message for one player of a room: its position and the text.
pub struct Greeting {
    pub recipient: usize,
    pub text: String,
}

/// A room: its settings and its players, each with the channel `S` on which
/// messages reach that player.
pub struct RoomData<S> {
    pub room_id: String,
    pub room_name: String,
    pub room_type: RoomType,
    pub players: Vec<(String, S)>,
    pub capacity: u8,
    pub extra_data: String,
}

impl<S> RoomData<S> {
    /// The players, in the order in which they came in, with their channels.
    pub open spec fn players(self) -> Seq<(String, S)> {
        self.players@
    }

    /// The name of the player at `i`.
    pub open spec fn name_at(self, i: int) -> Seq<char> {
        self.players()[i].0@
    }

    /// The room holds what the given settings ask for (the identifier aside).
    pub open spec fn settings_from(self, params: RoomParams) -> bool {
        &&& self.room_name@ == params.room_name_text()
        &&& params.room_type == Some(self.room_type)
        &&& self.capacity == params.capacity_for()
        &&& self.extra_data@ == text_or_empty(params.extra_data)
    }

    /// Two rooms have the same settings and identifier (their players aside).
    pub open spec fn same_settings(self, other: RoomData<S>) -> bool {
        &&& self.room_id == other.room_id
        &&& self.room_name == other.room_name
        &&& self.room_type == other.room_type
        &&& self.capacity == other.capacity
        &&& self.extra_data == other.extra_data
    }

    /// `i` is the first player whose name is `name`.
    pub open spec fn is_first_named(self, name: Seq<char>, i: int) -> bool {
        &&& 0 <= i < self.players().len()
        &&& self.name_at(i) == name
        &&& forall|j: int| 0 <= j < i ==> self.name_at(j) != name
    }

    /// The greeting is what the creator of the room is told: `N` followed by
    /// the room's identifier, sent to the first player of the creator's
    /// name, who is the first player of the room.
    pub open spec fn greets(self, creator: Seq<char>, greeting: Greeting) -> bool {
        &&& greeting.recipient == 0
        &&& self.is_first_named(creator, 0)
        &&& greeting.text@ == seq!['N'] + self.room_id@
    }

    /// `i` is the first player whose name is not `name`.
    pub open spec fn is_first_other(self, name: Seq<char>, i: int) -> bool {
        &&& 0 <= i < self.players().len()
        &&& self.name_at(i) != name
        &&& forall|j: int| 0 <= j < i ==> self.name_at(j) == name
    }

    /// Makes the room that the settings ask for, with the asking player in it
    /// on the given channel, together with the greeting that tells that
    /// player the room's identifier; or says why the settings cannot make a
    /// room.
    pub fn new(room_params: &RoomParams, channel_sender: S) -> (res: Result<
        (RoomData<S>, Greeting),
        Error,
    >)
        ensures
            res is Err <==> room_params.refusal() is Some,
            res matches Err(e) ==> e.text() == room_params.refusal()->0,
            res matches Ok((room, greeting)) ==> {
                &&& room.settings_from(*room_params)
                &&& is_room_id(room.room_id@)
                &&& room.players() == seq![(room_params.player, channel_sender)]
                &&& room.greets(room_params.player@, greeting)
            },
    {
        let mut room: RoomData<S> = match room_params.as_room_data() {
            Ok(r) => r,
            Err(e) => return Err(e),
        };
        room.add_player(room_params.player.clone(), channel_sender);
        proof {
            assert(room.players() =~= seq![(room_params.player, channel_sender)]);
        }
        let recipient = match room.send_self_message(&room_params.player) {
            Some(i) => i,
            None => 0,
        };
        let greeting = Greeting { recipient, text: room.created_message() };
        Ok((room, greeting))
    }

    /// Puts a player in the room, after those already there.
    pub fn add_player(&mut self, player: String, channel_sender: S)
        ensures
            final(self).same_settings(*old(self)),
            final(self).players() == old(self).players().push((player, channel_sender)),
    {
        self.players.push((player, channel_sender));
    }

    /// Sends every player away.
    pub fn clear_players(&mut self)
        ensures
            final(self).same_settings(*old(self)),
            final(self).players() == Seq::<(String, S)>::empty(),
    {
        self.players.clear();
    }

    /// The number of players in the room.
    pub fn player_count(&self) -> (n: usize)
        ensures
            n == self.players().len(),
    {
        self.players.len()
    }

    /// The name of the player at `i`.
    pub fn player_name(&self, i: usize) -> (name: &String)
        requires
            i < self.players().len(),
        ensures
            *name == self.players()[i as int].0,
    {
        &self.players[i].0
    }

    /// The channel of the player at `i`.
    pub fn player_channel(&self, i: usize) -> (channel: &S)
        requires
            i < self.players().len(),
        ensures
            *channel == self.players()[i as int].1,
    {
        &self.players[i].1
    }

    /// The player that a message meant for `player` goes to: the first one
    /// of that name, if there is one.
    pub fn send_self_message(&self, player: &String) -> (target: Option<usize>)
        ensures
            target matches Some(i) ==> self.is_first_named(player@, i as int),
            target is None ==> forall|j: int|
                0 <= j < self.players().len() ==> self.name_at(j) != player@,
    {
        let n = self.players.len();
        let mut i: usize = 0;
        while i < n
            invariant
                n == self.players().len(),
                i <= n,
                forall|j: int| 0 <= j < i ==> self.name_at(j) != player@,
            decreases n - i,
        {
            if player.eq(&self.players[i].0) {
                return Some(i);
            }
            i = i + 1;
        }
        None
    }

    /// The player that a message from `player` to the others goes to: the
    /// first one in the room of another name, if there is one. (One player
    /// only: with three or more in the room, the rest get nothing.)
    pub fn send_message_to_others(&self, player: &String) -> (target: Option<usize>)
        ensures
            target matches Some(i) ==> self.is_first_other(player@, i as int),
            target is None ==> forall|j: int|
                0 <= j < self.players().len() ==> self.name_at(j) == player@,
    {
        let n = self.players.len();
        let mut i: usize = 0;
        while i < n
            invariant
                n == self.players().len(),
                i <= n,
                forall|j: int| 0 <= j < i ==> self.name_at(j) == player@,
            decreases n - i,
        {
            if !player.eq(&self.players[i].0) {
                return Some(i);
            }
            i = i + 1;
        }
        None
    }

    /// The players that a message to everyone goes to: all of them, each
    /// once, in the order in which they came in.
    pub fn broadcast_message(&self) -> (targets: Vec<usize>)
        ensures
            targets@ == Seq::new(self.players().len(), |i: int| i as usize),
    {
        let n = self.players.len();
        let mut targets: Vec<usize> = Vec::new();
        let mut i: usize = 0;
        while i < n
            invariant
                n == self.players().len(),
                i <= n,
                targets@ == Seq::new(i as nat, |k: int| k as usize),
            decreases n - i,
        {
            targets.push(i);
            i = i + 1;
            proof {
                assert(targets@ =~= Seq::new(i as nat, |k: int| k as usize));
            }
        }
        targets
    }

    /// The message that tells the creator of the room its identifier: `N`
    /// followed by the identifier.
    pub fn created_message(&self) -> (msg: String)
        ensures
            msg@ == seq!['N'] + self.room_id@,
    {
        let mut msg = "N".to_owned();
        proof {
            reveal_strlit("N");
        }
        msg.append(self.room_id.as_str());
        msg
    }
}

/// The name asked for in the settings, empty where none is given.
pub open spec fn asked_name(params: RoomParams) -> Seq<char> {
    match params.room_name {
        Some(n) => n@,
        None => Seq::empty(),
    }
}

/// Settings make a room exactly when a room type is given, the player has a
/// name (of any length) and the room's name has 1 to 30 bytes in UTF-8. A
/// refusal names the first of these three that fails. (The name's encoding
/// is taken to fit in memory.)
pub proof fn lemma_refusal_conditions(params: RoomParams)
    requires
        encode_utf8(asked_name(params)).len() <= usize::MAX,
    ensures
        params.refusal() is None <==> {
            &&& params.room_type is Some
            &&& params.player@.len() > 0
            &&& asked_name(params).len() > 0
            &&& encode_utf8(asked_name(params)).len() <= 30
        },
        params.room_type is None ==> params.refusal() == Some("Unknonw room type"@),
        params.room_type is Some && params.player@.len() == 0 ==> params.refusal() == Some(
            "Player name is empty"@,
        ),
        params.room_type is Some && params.player@.len() > 0 && (asked_name(params).len() == 0
            || encode_utf8(asked_name(params)).len() > 30) ==> params.refusal() == Some(
            "Invalid room name"@,
        ),
{
}

/// A room for the drawing game or for snake is for two players; a room for
/// another game is for as many as asked, or for none where nothing is asked.
pub proof fn lemma_capacity(params: RoomParams)
    ensures
        params.room_type == Some(RoomType::DRAW) ==> params.capacity_for() == 2,
        params.room_type == Some(RoomType::SNAKE) ==> params.capacity_for() == 2,
        params.room_type == Some(RoomType::UNKNOWN) && params.capacity is Some
            ==> params.capacity_for() == params.capacity->0,
        params.room_type == Some(RoomType::UNKNOWN) && params.capacity is None
            ==> params.capacity_for() == 0,
{
}

/// A room made from settings has the name, type, capacity and extra data
/// that the settings ask for: the capacity asked for a room of another game
/// is kept as it is.
pub proof fn lemma_room_made_from<S>(room: RoomData<S>, params: RoomParams)
    requires
        room.settings_from(params),
    ensures
        room.room_name@ == asked_name(params),
        params.room_type == Some(room.room_type),
        room.room_type == RoomType::DRAW || room.room_type == RoomType::SNAKE ==> room.capacity
            == 2,
        room.room_type == RoomType::UNKNOWN ==> room.capacity == (match params.capacity {
            Some(c) => c,
            None => 0u8,
        }),
        room.extra_data@ == (match params.extra_data {
            Some(d) => d@,
            None => Seq::<char>::empty(),
        }),
{
}

/// The greeting of a new room goes to its first player, who bears the
/// creator's name, and reads `N` followed by the room's identifier.
pub proof fn lemma_greeting<S>(room: RoomData<S>, creator: Seq<char>, greeting: Greeting)
    ensures
        room.greets(creator, greeting) <==> {
            &&& greeting.recipient == 0
            &&& room.players@.len() > 0
            &&& room.players@[0].0@ == creator
            &&& greeting.text@ == seq!['N'] + room.room_id@
        },
{
}

/// The player a message meant for a name goes to is the first player of
/// that name; the player a message to the others goes to is the first of
/// another name.
pub proof fn lemma_first_player<S>(room: RoomData<S>, name: Seq<char>, i: int)
    ensures
        room.is_first_named(name, i) <==> {
            &&& 0 <= i < room.players@.len()
            &&& room.players@[i].0@ == name
            &&& forall|j: int| 0 <= j < i ==> room.players@[j].0@ != name
        },
        room.is_first_other(name, i) <==> {
            &&& 0 <= i < room.players@.len()
            &&& room.players@[i].0@ != name
            &&& forall|j: int| 0 <= j < i ==> room.players@[j].0@ == name
        },
{
    assert forall|j: int| 0 <= j < room.players@.len() implies #[trigger] room.name_at(j)
        == room.players@[j].0@ by {}
    if forall|j: int| 0 <= j < i ==> room.players@[j].0@ != name {
        assert forall|j: int| 0 <= j < i implies room.name_at(j) != name by {
            assert(room.players@[j].0@ != name);
        }
    }
    if forall|j: int| 0 <= j < i ==> room.players@[j].0@ == name {
        assert forall|j: int| 0 <= j < i implies room.name_at(j) == name by {
            assert(room.players@[j].0@ == name);
        }
    }
    if forall|j: int| 0 <= j < i ==> room.name_at(j) != name {
        assert forall|j: int| 0 <= j < i implies room.players@[j].0@ != name by {
            assert(room.name_at(j) != name);
        }
    }
    if forall|j: int| 0 <= j < i ==> room.name_at(j) == name {
        assert forall|j: int| 0 <= j < i implies room.players@[j].0@ == name by {
            assert(room.name_at(j) == name);
        }
    }
}

/// Two rooms have the same settings when they agree on everything but their
/// players.
pub proof fn lemma_same_settings<S>(a: RoomData<S>, b: RoomData<S>)
    ensures
        a.same_settings(b) <==> {
            &&& a.room_id == b.room_id
            &&& a.room_name == b.room_name
            &&& a.room_type == b.room_type
            &&& a.capacity == b.capacity
            &&& a.extra_data == b.extra_data
        },
{
}

} // verus!
