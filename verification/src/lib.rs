//! Message interpreter for a turn-based card-game protocol.
//!
//! Raw text lines are tokenized and matched against a fixed grammar
//! ([`message_parsing::parse_message`]), and the resulting messages are folded
//! into a long-lived [`game_state::GameState`] by
//! [`game_state::GameHandler::run_one_round`].

pub mod game_state;
pub mod laws;
pub mod message_parsing;
pub mod scan;
