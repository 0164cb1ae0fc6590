//! What holds across the operations of the client.

pub mod copying;
pub mod selecting;
pub mod searching;
pub mod driving;
pub mod finding;
pub mod wording;
pub mod alerting;
pub mod pasting;
pub mod binding;
pub mod returning;
pub mod commanding;
pub mod drawing;
pub mod showing;
pub mod helping;
pub mod reaching;
pub mod picturing;
pub mod extending;
pub mod listing;
