pub mod app;
pub mod room;
pub mod room_id;
