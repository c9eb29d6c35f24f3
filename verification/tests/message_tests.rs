use rusty_battleline_interface::message_parsing::{
    ClaimStatus, Direction, Message, parse_message,
};

#[test]
fn confirm_parsing_message() {
    let x = rusty_battleline_interface::message_parsing::parse_message(String::from(
        "go play-card",
    ));
    match x {
        rusty_battleline_interface::message_parsing::Message::PlayCard => {}
        _ => panic!("Wrong Card type."),
    }
}

#[test]
fn message_parsing_play_card_message() {
    let x = parse_message(String::from("go play-card"));
    match x {
        Message::PlayCard => {}
        _ => panic!("Wrong Card type."),
    }
}

#[test]
fn message_parsing_unknown_message_is_blank() {
    let x = parse_message(String::from("this isn't a message"));
    match x {
        Message::Blank => {}
        _ => panic!("Wrong Card type."),
    }
}

#[test]
fn message_parsing_opponent_play_message() {
    let x = parse_message(String::from("opponent play 3 red,5"));
    match x {
        Message::OpponentPlay { number, card } => {
            assert_eq!(String::from("red"), card.color);
            assert_eq!(5, card.number);
            assert_eq!(3, number);
        }
        _ => panic!("Wrong Card type."),
    }
}

#[test]
fn message_parsing_player_direction_message() {
    let x = parse_message(String::from("player south name"));
    match x {
        Message::PlayerDirection { direction: Direction::South } => {}
        _ => panic!("Wrong Card type."),
    }
    let x = parse_message(String::from("player north name"));
    match x {
        Message::PlayerDirection { direction: Direction::North } => {}
        _ => panic!("Wrong Card type."),
    }
}

#[test]
fn message_parsing_color_names_message() {
    let x = parse_message(String::from("colors a b c d e f"));
    let color_vec = vec![
        String::from("a"),
        String::from("b"),
        String::from("c"),
        String::from("d"),
        String::from("e"),
        String::from("f"),
    ];
    match x {
        Message::ColorNames { colors } => {
            assert_eq!(color_vec, colors);
        }
        _ => panic!("Wrong Card type."),
    }
}

#[test]
fn message_parsing_flag_claim_message() {
    let claim_vec = vec![
        ClaimStatus::North,
        ClaimStatus::South,
        ClaimStatus::Unclaimed,
        ClaimStatus::Unclaimed,
        ClaimStatus::South,
        ClaimStatus::North,
        ClaimStatus::South,
        ClaimStatus::North,
        ClaimStatus::Unclaimed,
    ];

    let x = parse_message(String::from(
        "flag claim-status north south unclaimed unclaimed south north south north unclaimed",
    ));
    match x {
        Message::FlagClaimStatus { flags_claimed } => {
            assert_eq!(claim_vec, flags_claimed);
        }
        _ => panic!("Wrong Card type."),
    }
}

#[test]
fn flag_card_message() {
    let x = parse_message(String::from("flag 3 cards north red,3 blue,9"));
    match x {
        Message::FlagStatus { flag_num, direction, cards } => {
            assert_eq!(3, flag_num);
            assert!(direction == Direction::North);
            assert_eq!(2, cards.len());
            assert_eq!(String::from("red"), cards[0].color);
            assert_eq!(3, cards[0].number);
            assert_eq!(String::from("blue"), cards[1].color);
            assert_eq!(9, cards[1].number);
        }
        _ => panic!("Wrong Card type."),
    }
}

#[test]
fn message_parsing_player_hand_message() {
    let x = parse_message(String::from("player north hand red,3 blue,6 green,4"));
    match x {
        Message::PlayerHand { direction, cards } => {
            assert!(direction == Direction::North);
            assert_eq!(3, cards.len());
            assert_eq!(String::from("red"), cards[0].color);
            assert_eq!(3, cards[0].number);
            assert_eq!(String::from("blue"), cards[1].color);
            assert_eq!(6, cards[1].number);
            assert_eq!(String::from("green"), cards[2].color);
            assert_eq!(4, cards[2].number);
        }
        _ => panic!("Wrong Card type."),
    }
}

#[test]
fn lib_play_card_message() {
    let x = parse_message(String::from("go play-card"));
    match x {
        Message::PlayCard => {}
        _ => panic!("Wrong Card type."),
    }
}

#[test]
fn lib_unknown_message_is_blank() {
    let x = parse_message(String::from("this isn't a message"));
    match x {
        Message::Blank => {}
        _ => panic!("Wrong Card type."),
    }
}

#[test]
fn lib_opponent_play_message() {
    let x = parse_message(String::from("opponent play 3 red,5"));
    match x {
        Message::OpponentPlay { number, card } => {
            assert_eq!(String::from("red"), card.color);
            assert_eq!(5, card.number);
            assert_eq!(3, number);
        }
        _ => panic!("Wrong Card type."),
    }
}

#[test]
fn lib_player_direction_message() {
    let x = parse_message(String::from("player south name"));
    match x {
        Message::PlayerDirection { direction: Direction::South } => {}
        _ => panic!("Wrong Card type."),
    }
    let x = parse_message(String::from("player north name"));
    match x {
        Message::PlayerDirection { direction: Direction::North } => {}
        _ => panic!("Wrong Card type."),
    }
}

#[test]
fn lib_color_names_message() {
    let x = parse_message(String::from("colors a b c d e f"));
    match x {
        Message::ColorNames { colors } => {
            assert_eq!(6, colors.len());
            assert_eq!(String::from("a"), colors[0]);
            assert_eq!(String::from("b"), colors[1]);
            assert_eq!(String::from("c"), colors[2]);
            assert_eq!(String::from("d"), colors[3]);
            assert_eq!(String::from("e"), colors[4]);
            assert_eq!(String::from("f"), colors[5]);
        }
        _ => panic!("Wrong Card type."),
    }
}

#[test]
fn lib_flag_claim_message() {
    let x = parse_message(String::from(
        "flag claim-status north south unclaimed unclaimed south north south north unclaimed",
    ));
    match x {
        Message::FlagClaimStatus { flags_claimed } => {
            let expected = vec![
                ClaimStatus::North,
                ClaimStatus::South,
                ClaimStatus::Unclaimed,
                ClaimStatus::Unclaimed,
                ClaimStatus::South,
                ClaimStatus::North,
                ClaimStatus::South,
                ClaimStatus::North,
                ClaimStatus::Unclaimed,
            ];
            assert_eq!(expected, flags_claimed);
        }
        _ => panic!("Wrong Card type."),
    }
}

#[test]
fn lib_player_hand_message() {
    let x = parse_message(String::from("player north hand red,3 blue,4"));
    match x {
        Message::PlayerHand { direction: Direction::North, cards } => {
            assert_eq!(2, cards.len());
            assert_eq!(String::from("red"), cards[0].color);
            assert_eq!(3, cards[0].number);
            assert_eq!(String::from("blue"), cards[1].color);
            assert_eq!(4, cards[1].number);
        }
        _ => panic!("Wrong Card type."),
    }
}
