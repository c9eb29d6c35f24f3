use rusty_battleline_interface::game_state::{AiInterface, GameHandler, GameState};
use rusty_battleline_interface::message_parsing::{Card, ClaimStatus, Color, Direction};

struct TestAi {}

impl AiInterface for TestAi {
    fn update_game_state(&self, _: &GameState) -> String {
        return String::from("play 1 red,1");
    }

    fn get_bot_name(&self) -> String {
        return String::from("rusty_battleline_bot");
    }
}

#[test]
fn starter_player_check() {
    let mut handler: GameHandler = Default::default();
    let ai = TestAi {};
    let _ = handler.run_one_round(&ai, String::from("player north name"));
    assert!(Direction::North == handler.state.player_direction);
    assert!(Direction::South == handler.state.opponent_direction);
    let _ = handler.run_one_round(&ai, String::from("player south name"));
    assert!(Direction::South == handler.state.player_direction);
    assert!(Direction::North == handler.state.opponent_direction);
}

#[test]
fn starter_deck_check() {
    let mut handler: GameHandler = Default::default();
    let ai = TestAi {};
    let colors = vec![
        String::from("a"),
        String::from("b"),
        String::from("c"),
        String::from("d"),
        String::from("e"),
        String::from("f"),
    ];
    let colors_vec = vec![
        Color::Color1,
        Color::Color2,
        Color::Color3,
        Color::Color4,
        Color::Color5,
        Color::Color6,
    ];
    let _ = handler.run_one_round(&ai, String::from("colors a b c d e f"));
    assert_eq!(54, handler.state.deck.len());
    assert_eq!(colors, handler.state.colors);
    assert_eq!(colors_vec, handler.state.colors_vec);
}

#[test]
fn claim_status_check() {
    let mut handler: GameHandler = Default::default();
    let ai = TestAi {};
    let claims = vec![
        ClaimStatus::North,
        ClaimStatus::South,
        ClaimStatus::South,
        ClaimStatus::North,
        ClaimStatus::Unclaimed,
        ClaimStatus::Unclaimed,
        ClaimStatus::North,
        ClaimStatus::South,
        ClaimStatus::North,
    ];
    let _ = handler.run_one_round(
        &ai,
        String::from(
            "flag claim-status north south south north unclaimed unclaimed north south north",
        ),
    );
    assert_eq!(9, handler.state.claim_status.len());
    assert_eq!(claims, handler.state.claim_status);
}

#[test]
fn sides_check() {
    let mut handler: GameHandler = Default::default();
    let ai = TestAi {};
    let mut expected: Vec<Vec<Card>> = Vec::with_capacity(9);
    for _ in 1..10 {
        expected.push(vec![]);
    }
    expected[0] = vec![
        Card { color: Color::Color1, number: 3 },
        Card { color: Color::Color2, number: 7 },
    ];
    let _ = handler.run_one_round(&ai, String::from("colors red blue 3 4 5 6"));
    let _ = handler.run_one_round(&ai, String::from("player north name"));
    let _ = handler.run_one_round(&ai, String::from("flag 1 cards north red,3 blue,7"));
    assert_eq!(expected, handler.state.player_side);
}

#[test]
fn sides_check_1() {
    let mut handler: GameHandler = Default::default();
    let ai = TestAi {};
    let mut expected: Vec<Vec<Card>> = Vec::with_capacity(9);
    for _ in 1..10 {
        expected.push(vec![]);
    }
    expected[1] = vec![
        Card { color: Color::Color1, number: 3 },
        Card { color: Color::Color2, number: 7 },
    ];
    let _ = handler.run_one_round(&ai, String::from("colors red blue 3 4 5 6"));
    let _ = handler.run_one_round(&ai, String::from("player north name"));
    let _ = handler.run_one_round(&ai, String::from("flag 2 cards south red,3 blue,7"));
    assert_eq!(expected, handler.state.opponent_side);
}

#[test]
fn remove_card_when_opponent_played() {
    let mut handler: GameHandler = Default::default();
    let ai = TestAi {};
    let expected_card = Card { color: Color::Color1, number: 7 };
    let _ = handler.run_one_round(&ai, String::from("colors a b c d e f"));
    assert!(handler.state.deck.contains(&expected_card));
    let _ = handler.run_one_round(&ai, String::from("opponent play 1 a,7"));
    assert_eq!(53, handler.state.deck.len());
    assert!(!handler.state.deck.contains(&expected_card));
}

#[test]
fn remove_card_when_given_player_hand() {
    let mut handler: GameHandler = Default::default();
    let ai = TestAi {};
    let expected_cards = vec![
        Card { color: Color::Color1, number: 7 },
        Card { color: Color::Color3, number: 3 },
    ];
    let _ = handler.run_one_round(&ai, String::from("colors a b c d e f"));
    let _ = handler.run_one_round(&ai, String::from("player north name"));
    for x in &expected_cards {
        assert!(handler.state.deck.contains(&x));
    }
    let _ = handler.run_one_round(&ai, String::from("player north hand a,7 c,3"));
    assert_eq!(52, handler.state.deck.len());
    for x in &expected_cards {
        assert!(!handler.state.deck.contains(&x));
    }
}

#[test]
fn hand_update_when_given_player_hand() {
    let mut handler: GameHandler = Default::default();
    let ai = TestAi {};
    let expected_cards = vec![
        Card { color: Color::Color1, number: 7 },
        Card { color: Color::Color3, number: 3 },
    ];
    let _ = handler.run_one_round(&ai, String::from("colors a b c d e f"));
    let _ = handler.run_one_round(&ai, String::from("player north name"));
    let _ = handler.run_one_round(&ai, String::from("player north hand a,7 c,3"));
    assert_eq!(expected_cards, handler.state.player_hand);
}

#[test]
fn remove_from_deck_when_flag_status() {
    let mut handler: GameHandler = Default::default();
    let ai = TestAi {};
    let expected_cards = vec![
        Card { color: Color::Color1, number: 7 },
        Card { color: Color::Color3, number: 3 },
    ];
    let _ = handler.run_one_round(&ai, String::from("colors a b c d e f"));
    let _ = handler.run_one_round(&ai, String::from("player north name"));
    for x in &expected_cards {
        assert!(handler.state.deck.contains(&x));
    }
    let _ = handler.run_one_round(&ai, String::from("flag 1 cards north a,7 c,3"));
    assert_eq!(52, handler.state.deck.len());
    for x in &expected_cards {
        assert!(!handler.state.deck.contains(&x));
    }
}

#[test]
fn default_vectors_after_certain_commands() {
    let mut handler: GameHandler = Default::default();
    let ai = TestAi {};
    let _ = handler.run_one_round(&ai, String::from("colors a b c d e f"));
    assert_eq!(54, handler.state.deck.len());
    assert_eq!(6, handler.state.colors.len());
    assert_eq!(9, handler.state.claim_status.len());
    assert_eq!(9, handler.state.opponent_side.len());
    assert_eq!(9, handler.state.player_side.len());
}
