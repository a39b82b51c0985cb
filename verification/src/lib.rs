//! Client-side logic for a university's public room and timetable services:
//! the records the services return, the requests sent to them, the matching
//! of a typed room name against the room list, and the text shown for it.

pub mod bookings;
pub mod client;
pub mod date;
pub mod highlight;
pub mod models;
pub mod present;
pub mod requests;
pub mod search;
pub mod style;
pub mod text;
