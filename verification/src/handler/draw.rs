use vstd::prelude::*;
use vstd::utf8::{
    encode_scalar, encode_utf8, encode_utf8_decode_utf8, encode_utf8_first_scalar,
    encode_utf8_valid_utf8, is_char_boundary,
};

use crate::data::app::{room_at, AppData};

verus! {

/// What a text message of a player in a drawing room asks for, by its first
/// character: `S` sends the rest of the text to the other player, `B` sends
/// it to everyone in the room, anything else is ignored.
#[derive(Debug, PartialEq, Eq)]
pub enum Command {
    ToOthers(String),
    Broadcast(String),
    Ignore,
}

/// A command with its text taken as characters.
pub enum CommandView {
    ToOthers(Seq<char>),
    Broadcast(Seq<char>),
    Ignore,
}

impl View for Command {
    type V = CommandView;

    open spec fn view(&self) -> CommandView {
        match self {
            Command::ToOthers(t) => CommandView::ToOthers(t@),
            Command::Broadcast(t) => CommandView::Broadcast(t@),
            Command::Ignore => CommandView::Ignore,
        }
    }
}

/// A message can be read as a command: it is not empty and its first
/// character takes one byte, so that the first byte is a whole character.
pub open spec fn readable(message: Seq<char>) -> bool {
    message.len() > 0 && (message[0] as u32) < 0x80
}

/// The command that a readable message stands for.
pub open spec fn command_of(message: Seq<char>) -> CommandView {
    if message[0] == 'S' {
        CommandView::ToOthers(message.drop_first())
    } else if message[0] == 'B' {
        CommandView::Broadcast(message.drop_first())
    } else {
        CommandView::Ignore
    }
}

/// A message made of `S` or `B` and a text is readable, and stands for
/// sending that text to the others or to everyone.
pub proof fn lemma_command_of_prefixed(text: Seq<char>)
    ensures
        readable(seq!['S'] + text),
        command_of(seq!['S'] + text) == CommandView::ToOthers(text),
        readable(seq!['B'] + text),
        command_of(seq!['B'] + text) == CommandView::Broadcast(text),
{
    assert((seq!['S'] + text).drop_first() =~= text);
    assert((seq!['B'] + text).drop_first() =~= text);
}

/// A message is read by its first character: `S` sends the rest of it to
/// the others, `B` sends the rest to everyone, and any other first character
/// makes it go nowhere. It can be read when it is not empty and its first
/// character takes one byte.
pub proof fn lemma_command_of(message: Seq<char>)
    ensures
        readable(message) <==> (message.len() > 0 && (message[0] as u32) < 0x80),
        message.len() > 0 && message[0] == 'S' ==> command_of(message) == CommandView::ToOthers(
            message.subrange(1, message.len() as int),
        ),
        message.len() > 0 && message[0] == 'B' ==> command_of(message) == CommandView::Broadcast(
            message.subrange(1, message.len() as int),
        ),
        message.len() > 0 && message[0] != 'S' && message[0] != 'B' ==> command_of(message)
            == CommandView::Ignore,
{
    if message.len() > 0 {
        assert(message.drop_first() =~= message.subrange(1, message.len() as int));
    }
}

/// The UTF-8 encoding of a text that begins with a one-byte character is
/// that byte, then the encoding of the rest; byte 1 is a character boundary.
proof fn lemma_one_byte_head(message: Seq<char>)
    requires
        readable(message),
    ensures
        encode_utf8(message) == seq![(message[0] as u32) as u8] + encode_utf8(message.drop_first()),
        is_char_boundary(encode_utf8(message), 1),
{
    let c = message[0] as u32;
    assert(((c & 0x7F) as u8) == (c as u8)) by (bit_vector)
        requires
            c < 0x80,
    ;
    assert(encode_scalar(c) =~= seq![c as u8]);
    encode_utf8_valid_utf8(message);
    encode_utf8_first_scalar(message);
    reveal_with_fuel(is_char_boundary, 2);
}

/// Reads the command in a player's message. The caller makes sure that the
/// message is readable (a message that is not makes the first byte no
/// whole character).
pub fn parse_command(message: &str) -> (command: Command)
    requires
        readable(message@),
    ensures
        command@ == command_of(message@),
{
    proof {
        lemma_one_byte_head(message@);
        encode_utf8_decode_utf8(message@.drop_first());
    }
    let bytes = message.as_bytes();
    let first: u8 = bytes[0];
    proof {
        let c = message@[0] as u32;
        assert(first == c as u8);
        assert(first == c);
        vstd::utf8::char_u32_cast(message@[0], c);
    }
    if first == 83u8 {
        let (_, rest) = message.split_at(1);
        proof {
            assert(encode_utf8(rest@) =~= encode_utf8(message@.drop_first()));
            encode_utf8_decode_utf8(rest@);
        }
        Command::ToOthers(rest.to_owned())
    } else if first == 66u8 {
        let (_, rest) = message.split_at(1);
        proof {
            assert(encode_utf8(rest@) =~= encode_utf8(message@.drop_first()));
            encode_utf8_decode_utf8(rest@);
        }
        Command::Broadcast(rest.to_owned())
    } else {
        Command::Ignore
    }
}

/// A message to pass on: the text, and the players of the room (by
/// position) that it goes to.
pub struct Delivery {
    pub recipients: Vec<usize>,
    pub text: String,
}

/// Where a readable message of `player`, sent in the room at `room_idx`
/// that was entered under `room_id`, goes: for `S`, to the player that
/// `AppData::send_message_to_others` picks; for `B`, to every player of
/// that room; in each case only where the room at `room_idx` still has the
/// identifier `room_id`. Other messages go nowhere.
pub fn route_message<S>(
    app: &AppData<S>,
    room_idx: usize,
    room_id: &String,
    player: &String,
    message: &str,
) -> (delivery: Delivery)
    requires
        readable(message@),
    ensures
        command_of(message@) is Ignore ==> delivery.recipients@.len() == 0
            && delivery.text@.len() == 0,
        command_of(message@) matches CommandView::Broadcast(t) ==> {
            &&& delivery.text@ == t
            &&& room_at(app@, room_idx as int, room_id@) ==> delivery.recipients@ == Seq::new(
                app@[room_idx as int].players().len(),
                |i: int| i as usize,
            )
            &&& !room_at(app@, room_idx as int, room_id@) ==> delivery.recipients@.len() == 0
        },
        command_of(message@) matches CommandView::ToOthers(t) ==> {
            let room = app@[room_idx as int];
            &&& delivery.text@ == t
            &&& delivery.recipients@.len() <= 1
            &&& delivery.recipients@.len() == 1 ==> room_at(app@, room_idx as int, room_id@)
                && room.is_first_other(player@, delivery.recipients@[0] as int)
            &&& delivery.recipients@.len() == 0 ==> !room_at(app@, room_idx as int, room_id@)
                || forall|j: int| 0 <= j < room.players().len() ==> room.name_at(j) == player@
        },
{
    match parse_command(message) {
        Command::ToOthers(text) => {
            let mut recipients: Vec<usize> = Vec::new();
            if let Some(i) = app.send_message_to_others(room_idx, room_id, player) {
                recipients.push(i);
            }
            Delivery { recipients, text }
        },
        Command::Broadcast(text) => Delivery {
            recipients: app.broadcast(room_idx, room_id),
            text,
        },
        Command::Ignore => Delivery { recipients: Vec::new(), text: String::new() },
    }
}

} // verus!
