//! Room management for small browser games played over websockets: the rules
//! by which rooms are created, joined and closed, and by which a message from
//! one player is routed to the others.

pub mod data;
pub mod handler;
pub mod util;

pub use data::app::AppData;
pub use data::room::{RoomData, RoomParams, RoomType};
pub use util::result::Error;
