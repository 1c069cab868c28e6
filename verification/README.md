# gameserver

The server side of small browser games (drawing and guessing, snake) played
over websockets.

- `src/` is the verified library: the rules for making, joining and closing
  rooms (`data::room`, `data::app`), the SCRU128 identifiers of rooms
  (`data::room_id`), how a player's message is read and to whom it goes
  (`handler::draw`), the lookup of bundled assets (`handler::assets`) and the
  texts sent to players.
- `app/` is the program around it: the HTTP and websocket plumbing (axum,
  tokio), the per-player channels, the JSON of the lobby (serde) and `main`.
- `tests/` runs the library on concrete cases.
