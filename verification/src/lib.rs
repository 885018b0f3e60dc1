//! Rules of a maze chase game: a player collects the dots of a grid map while
//! chasers hunt it down.

pub mod chasers;
pub mod gameplay;
pub mod map;
