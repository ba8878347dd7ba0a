//! A small turn-based card table: the card data it loads, the rounds of the
//! game, the decisions of its terminal screen and the messages by which peers
//! find each other on the local network.

pub mod util;
pub mod text;
pub mod cards;
pub mod game;
pub mod layout;
pub mod card_widgets;
pub mod screen;
pub mod logfiles;
pub mod network;
