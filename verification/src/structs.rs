pub mod card;
pub mod collection;
pub mod deck;
pub mod hand;
pub mod player;
pub mod enums;
pub mod misc;
pub mod playerchips;
pub mod pot;
