//! The protocol's message types and the line-to-message parser.
//!
//! A line is split on runs of whitespace and the token sequence is matched
//! against a fixed grammar, in a fixed priority order; anything unrecognized
//! yields [`Message::Blank`]. Once a line matches a rule's outer shape, inner
//! fields are expected to be well-formed; where the protocol's guarantee is
//! broken (a claim-status word or a card's numeric part that does not parse),
//! the line is downgraded to [`Message::Blank`] rather than aborting.

use vstd::prelude::*;

use crate::scan::{
    find_char, find_from, parse_i32, spec_parse_i32, spec_tokens, str_eq, tokenize,
};

verus! {

/// A side of the board.
#[derive(Clone, Copy, PartialEq, Eq, Structural, Debug)]
pub enum Direction {
    North,
    South,
}

impl Default for Direction {
    /// The side assumed before any direction message arrives.
    fn default() -> (d: Direction)
        ensures
            d == Direction::North,
    {
        Direction::North
    }
}

/// Which side, if any, holds a flag.
#[derive(Clone, Copy, PartialEq, Eq, Structural, Debug)]
pub enum ClaimStatus {
    Unclaimed,
    North,
    South,
}

impl Default for ClaimStatus {
    fn default() -> (c: ClaimStatus)
        ensures
            c == ClaimStatus::Unclaimed,
    {
        ClaimStatus::Unclaimed
    }
}

/// A positional color slot, assigned by the order in which the six color
/// names are declared at roster time.
#[derive(Clone, Copy, PartialEq, Eq, Structural, Debug)]
pub enum Color {
    Color1,
    Color2,
    Color3,
    Color4,
    Color5,
    Color6,
}

/// A resolved card: a color slot and a number.
#[derive(Clone, Copy, PartialEq, Eq, Structural, Debug)]
pub struct Card {
    pub color: Color,
    pub number: i32,
}

/// A card as it stands on the wire: a color name and a number.
#[derive(Clone, Debug)]
pub struct CardString {
    pub color: String,
    pub number: i32,
}

/// The mathematical value of a [`CardString`].
#[verifier::ext_equal]
pub struct CardStringView {
    pub color: Seq<char>,
    pub number: i32,
}

impl View for CardString {
    type V = CardStringView;

    open spec fn view(&self) -> CardStringView {
        CardStringView { color: self.color@, number: self.number }
    }
}

impl DeepView for CardString {
    type V = CardStringView;

    open spec fn deep_view(&self) -> CardStringView {
        self.view()
    }
}

/// One parsed protocol line.
pub enum Message {
    Blank,
    PlayerDirection { direction: Direction },
    ColorNames { colors: Vec<String> },
    FlagClaimStatus { flags_claimed: Vec<ClaimStatus> },
    FlagStatus { flag_num: u32, direction: Direction, cards: Vec<CardString> },
    OpponentPlay { number: i32, card: CardString },
    PlayerHand { direction: Direction, cards: Vec<CardString> },
    PlayCard,
}

/// The mathematical value of a [`Message`].
#[verifier::ext_equal]
pub enum MessageView {
    Blank,
    PlayerDirection { direction: Direction },
    ColorNames { colors: Seq<Seq<char>> },
    FlagClaimStatus { flags_claimed: Seq<ClaimStatus> },
    FlagStatus { flag_num: u32, direction: Direction, cards: Seq<CardStringView> },
    OpponentPlay { number: i32, card: CardStringView },
    PlayerHand { direction: Direction, cards: Seq<CardStringView> },
    PlayCard,
}

impl View for Message {
    type V = MessageView;

    open spec fn view(&self) -> MessageView {
        match self {
            Message::Blank => MessageView::Blank,
            Message::PlayerDirection { direction } => MessageView::PlayerDirection {
                direction: *direction,
            },
            Message::ColorNames { colors } => MessageView::ColorNames {
                colors: colors.deep_view(),
            },
            Message::FlagClaimStatus { flags_claimed } => MessageView::FlagClaimStatus {
                flags_claimed: flags_claimed@,
            },
            Message::FlagStatus { flag_num, direction, cards } => MessageView::FlagStatus {
                flag_num: *flag_num,
                direction: *direction,
                cards: cards.deep_view(),
            },
            Message::OpponentPlay { number, card } => MessageView::OpponentPlay {
                number: *number,
                card: card@,
            },
            Message::PlayerHand { direction, cards } => MessageView::PlayerHand {
                direction: *direction,
                cards: cards.deep_view(),
            },
            Message::PlayCard => MessageView::PlayCard,
        }
    }
}

/// The two direction words of the wire format.
pub open spec fn spec_direction(tok: Seq<char>) -> Option<Direction> {
    if tok == "north"@ {
        Some(Direction::North)
    } else if tok == "south"@ {
        Some(Direction::South)
    } else {
        None
    }
}

/// Reads a direction word; any other token is refused.
pub fn convert_direction(message: &str) -> (r: Option<Direction>)
    ensures
        r == spec_direction(message@),
{
    if str_eq(message, "north") {
        Some(Direction::North)
    } else if str_eq(message, "south") {
        Some(Direction::South)
    } else {
        None
    }
}

pub open spec fn spec_direction_string(direction: Direction) -> Seq<char> {
    match direction {
        Direction::North => "north"@,
        Direction::South => "south"@,
    }
}

/// The wire word for a direction; total, the inverse of [`spec_direction`].
pub fn get_direction_string(direction: Direction) -> (r: String)
    ensures
        r@ == spec_direction_string(direction),
{
    match direction {
        Direction::North => "north".to_owned(),
        Direction::South => "south".to_owned(),
    }
}

/// The three claim-status words of the wire format.
pub open spec fn spec_claim_status(tok: Seq<char>) -> Option<ClaimStatus> {
    if tok == "north"@ {
        Some(ClaimStatus::North)
    } else if tok == "south"@ {
        Some(ClaimStatus::South)
    } else if tok == "unclaimed"@ {
        Some(ClaimStatus::Unclaimed)
    } else {
        None
    }
}

/// Reads a claim-status word; any other token is refused.
pub fn convert_claim_status(message: &str) -> (r: Option<ClaimStatus>)
    ensures
        r == spec_claim_status(message@),
{
    if str_eq(message, "north") {
        Some(ClaimStatus::North)
    } else if str_eq(message, "south") {
        Some(ClaimStatus::South)
    } else if str_eq(message, "unclaimed") {
        Some(ClaimStatus::Unclaimed)
    } else {
        None
    }
}

/// A card token `<color-name>,<number>`: the color name is everything before
/// the first comma, the numeric part runs to the second comma or the end and
/// must be a well-formed `i32` numeral. A token with no comma, or with a
/// numeric part that does not parse, is refused.
pub open spec fn spec_card_string(tok: Seq<char>) -> Option<CardStringView> {
    let i = find_from(tok, 0, ',');
    if i >= tok.len() {
        None
    } else {
        let j = find_from(tok, i + 1, ',');
        match spec_parse_i32(tok.subrange(i + 1, j)) {
            Some(n) => Some(CardStringView { color: tok.subrange(0, i), number: n }),
            None => None,
        }
    }
}

/// Reads a card token, as [`spec_card_string`] describes.
pub fn convert_string_to_card(message: &str) -> (r: Option<CardString>)
    ensures
        r matches Some(c) ==> spec_card_string(message@) == Some(c@),
        r is None ==> spec_card_string(message@) is None,
{
    let n = message.unicode_len();
    let i = find_char(message, 0, ',');
    if i >= n {
        return None;
    }
    proof {
        crate::scan::lemma_find_from(message@, 0, ',');
        crate::scan::lemma_find_from(message@, i + 1, ',');
    }
    let j = find_char(message, i + 1, ',');
    let number_part = message.substring_char(i + 1, j);
    match parse_i32(number_part) {
        Some(number) => {
            let color = message.substring_char(0, i).to_owned();
            Some(CardString { color, number })
        },
        None => None,
    }
}

/// All card tokens of a list, refused as a whole if any one is malformed.
pub open spec fn spec_cards(toks: Seq<Seq<char>>) -> Option<Seq<CardStringView>>
    decreases toks.len(),
{
    if toks.len() == 0 {
        Some(Seq::empty())
    } else {
        match (spec_cards(toks.drop_last()), spec_card_string(toks.last())) {
            (Some(rest), Some(c)) => Some(rest.push(c)),
            _ => None,
        }
    }
}

pub proof fn lemma_spec_cards_malformed(toks: Seq<Seq<char>>, k: int)
    requires
        0 <= k < toks.len(),
        spec_card_string(toks[k]) is None,
    ensures
        spec_cards(toks) is None,
    decreases toks.len(),
{
    if k < toks.len() - 1 {
        lemma_spec_cards_malformed(toks.drop_last(), k);
    }
}

/// All claim-status tokens of a list, refused as a whole if any one is not a
/// claim-status word.
pub open spec fn spec_claims(toks: Seq<Seq<char>>) -> Option<Seq<ClaimStatus>>
    decreases toks.len(),
{
    if toks.len() == 0 {
        Some(Seq::empty())
    } else {
        match (spec_claims(toks.drop_last()), spec_claim_status(toks.last())) {
            (Some(rest), Some(c)) => Some(rest.push(c)),
            _ => None,
        }
    }
}

pub proof fn lemma_spec_claims_malformed(toks: Seq<Seq<char>>, k: int)
    requires
        0 <= k < toks.len(),
        spec_claim_status(toks[k]) is None,
    ensures
        spec_claims(toks) is None,
    decreases toks.len(),
{
    if k < toks.len() - 1 {
        lemma_spec_claims_malformed(toks.drop_last(), k);
    }
}

/// A flag-position token: a single character in `'1'..='9'`.
pub open spec fn is_flag_token(tok: Seq<char>) -> bool {
    tok.len() == 1 && 49 <= tok[0] as int && tok[0] as int <= 57
}

pub open spec fn flag_token_val(tok: Seq<char>) -> int {
    tok[0] as int - 48
}

/// Reads a flag-position token; multi-character tokens are refused even when
/// they would parse as a number in range.
fn flag_token(tok: &str) -> (r: Option<u32>)
    ensures
        r matches Some(v) ==> is_flag_token(tok@) && v == flag_token_val(tok@),
        r is None ==> !is_flag_token(tok@),
{
    if tok.unicode_len() != 1 {
        return None;
    }
    let u = tok.get_char(0) as u32;
    if 49 <= u && u <= 57 {
        Some(u - 48)
    } else {
        None
    }
}

/// Parses every token from `start` on as a card.
fn parse_cards(tokens: &Vec<String>, start: usize) -> (r: Option<Vec<CardString>>)
    requires
        start <= tokens@.len(),
    ensures
        r matches Some(cards) ==> spec_cards(tokens.deep_view().skip(start as int)) == Some(
            cards.deep_view(),
        ),
        r is None ==> spec_cards(tokens.deep_view().skip(start as int)) is None,
{
    let ghost toks = tokens.deep_view().skip(start as int);
    let n = tokens.len();
    let mut cards: Vec<CardString> = Vec::new();
    let mut k = start;
    while k < n
        invariant
            start <= k <= n,
            n == tokens@.len(),
            toks == tokens.deep_view().skip(start as int),
            spec_cards(tokens.deep_view().subrange(start as int, k as int)) == Some(
                cards.deep_view(),
            ),
        decreases n - k,
    {
        let ghost dv = tokens.deep_view();
        proof {
            assert(dv[k as int] == tokens@[k as int]@);
        }
        match convert_string_to_card(tokens[k].as_str()) {
            Some(c) => {
                let ghost prev = cards.deep_view();
                cards.push(c);
                proof {
                    assert(dv.subrange(start as int, k + 1).drop_last() =~= dv.subrange(
                        start as int,
                        k as int,
                    ));
                    assert(cards.deep_view() =~= prev.push(c@));
                }
            },
            None => {
                proof {
                    assert(toks[k - start] == dv[k as int]);
                    lemma_spec_cards_malformed(toks, k - start);
                }
                return None;
            },
        }
        k = k + 1;
    }
    proof {
        assert(tokens.deep_view().subrange(start as int, n as int) =~= toks);
    }
    Some(cards)
}

/// Parses every token from `start` on as a claim-status word.
fn parse_claims(tokens: &Vec<String>, start: usize) -> (r: Option<Vec<ClaimStatus>>)
    requires
        start <= tokens@.len(),
    ensures
        r matches Some(claims) ==> spec_claims(tokens.deep_view().skip(start as int)) == Some(
            claims@,
        ),
        r is None ==> spec_claims(tokens.deep_view().skip(start as int)) is None,
{
    let ghost toks = tokens.deep_view().skip(start as int);
    let n = tokens.len();
    let mut claims: Vec<ClaimStatus> = Vec::new();
    let mut k = start;
    while k < n
        invariant
            start <= k <= n,
            n == tokens@.len(),
            toks == tokens.deep_view().skip(start as int),
            spec_claims(tokens.deep_view().subrange(start as int, k as int)) == Some(claims@),
        decreases n - k,
    {
        let ghost dv = tokens.deep_view();
        proof {
            assert(dv[k as int] == tokens@[k as int]@);
        }
        match convert_claim_status(tokens[k].as_str()) {
            Some(c) => {
                let ghost prev = claims@;
                claims.push(c);
                proof {
                    assert(dv.subrange(start as int, k + 1).drop_last() =~= dv.subrange(
                        start as int,
                        k as int,
                    ));
                    assert(claims@ =~= prev.push(c));
                }
            },
            None => {
                proof {
                    assert(toks[k - start] == dv[k as int]);
                    lemma_spec_claims_malformed(toks, k - start);
                }
                return None;
            },
        }
        k = k + 1;
    }
    proof {
        assert(tokens.deep_view().subrange(start as int, n as int) =~= toks);
    }
    Some(claims)
}

/// Clones the tokens of `start..end` into owned strings.
fn clone_tokens(tokens: &Vec<String>, start: usize, end: usize) -> (r: Vec<String>)
    requires
        start <= end <= tokens@.len(),
    ensures
        r.deep_view() == tokens.deep_view().subrange(start as int, end as int),
{
    let mut out: Vec<String> = Vec::new();
    let mut k = start;
    while k < end
        invariant
            start <= k <= end <= tokens@.len(),
            out.deep_view() =~= tokens.deep_view().subrange(start as int, k as int),
        decreases end - k,
    {
        let ghost prev = out.deep_view();
        out.push(tokens[k].clone());
        proof {
            assert(tokens.deep_view()[k as int] == tokens@[k as int]@);
            assert(out.deep_view() =~= prev.push(tokens@[k as int]@));
        }
        k = k + 1;
    }
    out
}

/// The direction a well-formed direction token denotes.
pub open spec fn direction_of(tok: Seq<char>) -> Direction {
    if tok == "north"@ {
        Direction::North
    } else {
        Direction::South
    }
}

/// The grammar: token sequences are matched against the rules in this fixed
/// priority order, and anything else is [`MessageView::Blank`].
pub open spec fn spec_parse_tokens(t: Seq<Seq<char>>) -> MessageView {
    if t.len() == 2 && t[0] == "go"@ && t[1] == "play-card"@ {
        MessageView::PlayCard
    } else if t.len() >= 3 && t.len() <= 10 && t[0] == "player"@ && t[2] == "hand"@
        && spec_direction(t[1]) is Some {
        match spec_cards(t.skip(3)) {
            Some(cards) => MessageView::PlayerHand { direction: direction_of(t[1]), cards },
            None => MessageView::Blank,
        }
    } else if t.len() >= 4 && t[0] == "flag"@ && t[2] == "cards"@ && is_flag_token(t[1])
        && spec_direction(t[3]) is Some {
        match spec_cards(t.skip(4)) {
            Some(cards) => MessageView::FlagStatus {
                flag_num: flag_token_val(t[1]) as u32,
                direction: direction_of(t[3]),
                cards,
            },
            None => MessageView::Blank,
        }
    } else if t.len() == 3 && t[0] == "player"@ && t[2] == "name"@ && spec_direction(t[1]) is Some {
        MessageView::PlayerDirection { direction: direction_of(t[1]) }
    } else if t.len() == 4 && t[0] == "opponent"@ && t[1] == "play"@ && is_flag_token(t[2]) {
        match spec_card_string(t[3]) {
            Some(card) => MessageView::OpponentPlay { number: flag_token_val(t[2]) as i32, card },
            None => MessageView::Blank,
        }
    } else if t.len() == 7 && t[0] == "colors"@ {
        MessageView::ColorNames { colors: t.subrange(1, 7) }
    } else if t.len() == 11 && t[0] == "flag"@ && t[1] == "claim-status"@ {
        match spec_claims(t.skip(2)) {
            Some(flags_claimed) => MessageView::FlagClaimStatus { flags_claimed },
            None => MessageView::Blank,
        }
    } else {
        MessageView::Blank
    }
}

/// What a whole line parses to.
pub open spec fn spec_parse_message(s: Seq<char>) -> MessageView {
    spec_parse_tokens(spec_tokens(s))
}

/// The grammar only ever reports a flag position in `1..=9`.
pub proof fn lemma_parse_flag_num_range(t: Seq<Seq<char>>)
    ensures
        spec_parse_tokens(t) matches MessageView::FlagStatus { flag_num, .. } ==> 1 <= flag_num
            <= 9,
{
}

/// Parses one protocol line, as [`spec_parse_message`] describes. Unrecognized
/// or malformed input always yields [`Message::Blank`], never an error.
pub fn parse_message(message: String) -> (m: Message)
    ensures
        m@ == spec_parse_message(message@),
{
    let tokens = tokenize(message.as_str());
    let ghost t = tokens.deep_view();
    let n = tokens.len();
    if n == 2 && str_eq(tokens[0].as_str(), "go") && str_eq(tokens[1].as_str(), "play-card") {
        return Message::PlayCard;
    }
    if n >= 3 && n <= 10 && str_eq(tokens[0].as_str(), "player") && str_eq(
        tokens[2].as_str(),
        "hand",
    ) {
        if let Some(direction) = convert_direction(tokens[1].as_str()) {
            match parse_cards(&tokens, 3) {
                Some(cards) => {
                    return Message::PlayerHand { direction, cards };
                },
                None => {
                    return Message::Blank;
                },
            }
        }
    }
    if n >= 4 && str_eq(tokens[0].as_str(), "flag") && str_eq(tokens[2].as_str(), "cards") {
        if let Some(flag_num) = flag_token(tokens[1].as_str()) {
            if let Some(direction) = convert_direction(tokens[3].as_str()) {
                match parse_cards(&tokens, 4) {
                    Some(cards) => {
                        return Message::FlagStatus { flag_num, direction, cards };
                    },
                    None => {
                        return Message::Blank;
                    },
                }
            }
        }
    }
    if n == 3 && str_eq(tokens[0].as_str(), "player") && str_eq(tokens[2].as_str(), "name") {
        if let Some(direction) = convert_direction(tokens[1].as_str()) {
            return Message::PlayerDirection { direction };
        }
    }
    if n == 4 && str_eq(tokens[0].as_str(), "opponent") && str_eq(tokens[1].as_str(), "play") {
        if let Some(v) = flag_token(tokens[2].as_str()) {
            match convert_string_to_card(tokens[3].as_str()) {
                Some(card) => {
                    return Message::OpponentPlay { number: v as i32, card };
                },
                None => {
                    return Message::Blank;
                },
            }
        }
    }
    if n == 7 && str_eq(tokens[0].as_str(), "colors") {
        let colors = clone_tokens(&tokens, 1, 7);
        return Message::ColorNames { colors };
    }
    if n == 11 && str_eq(tokens[0].as_str(), "flag") && str_eq(tokens[1].as_str(), "claim-status") {
        match parse_claims(&tokens, 2) {
            Some(flags_claimed) => {
                return Message::FlagClaimStatus { flags_claimed };
            },
            None => {
                return Message::Blank;
            },
        }
    }
    Message::Blank
}

} // verus!
