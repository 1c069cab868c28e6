pub mod assets;
pub mod draw;

use vstd::prelude::*;

verus! {

/// The message that tells a player why the websocket is being closed: `E`
/// followed by the reason.
pub fn close_message(msg: &str) -> (text: String)
    ensures
        text@ == seq!['E'] + msg@,
{
    let mut text = "E".to_owned();
    proof {
        reveal_strlit("E");
    }
    text.append(msg);
    text
}

} // verus!
