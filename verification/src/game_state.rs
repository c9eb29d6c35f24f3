//! The state accumulator: a long-lived [`GameState`] that folds a stream of
//! parsed messages into a consistent view of deck composition, hands, board
//! sides and flag claims, and the codec that resolves wire-format color names
//! to stable color slots.

use vstd::prelude::*;

use crate::message_parsing::{
    Card, CardString, CardStringView, ClaimStatus, Color, Direction, Message, MessageView,
    get_direction_string, parse_message, spec_direction_string, spec_parse_message,
};
use crate::scan::str_eq;

verus! {

impl DeepView for Card {
    type V = Card;

    open spec fn deep_view(&self) -> Card {
        *self
    }
}

/// The decision-making component consulted by the accumulator: it reads the
/// current state and produces the bot's protocol responses.
pub trait AiInterface {
    /// The exact text the protocol expects as the player's move this turn.
    fn update_game_state(&self, state: &GameState) -> String;

    /// The bot's display name.
    fn get_bot_name(&self) -> String;
}

/// The accumulated view of one game session.
pub struct GameState {
    pub player_direction: Direction,
    pub opponent_direction: Direction,
    pub deck: Vec<Card>,
    pub colors: Vec<String>,
    pub colors_vec: Vec<Color>,
    pub claim_status: Vec<ClaimStatus>,
    pub opponent_side: Vec<Vec<Card>>,
    pub player_side: Vec<Vec<Card>>,
    pub player_hand: Vec<Card>,
}

/// The mathematical value of a [`GameState`].
#[verifier::ext_equal]
pub struct GameStateView {
    pub player_direction: Direction,
    pub opponent_direction: Direction,
    pub deck: Seq<Card>,
    pub colors: Seq<Seq<char>>,
    pub colors_vec: Seq<Color>,
    pub claim_status: Seq<ClaimStatus>,
    pub opponent_side: Seq<Seq<Card>>,
    pub player_side: Seq<Seq<Card>>,
    pub player_hand: Seq<Card>,
}

impl View for GameState {
    type V = GameStateView;

    open spec fn view(&self) -> GameStateView {
        GameStateView {
            player_direction: self.player_direction,
            opponent_direction: self.opponent_direction,
            deck: self.deck@,
            colors: self.colors.deep_view(),
            colors_vec: self.colors_vec@,
            claim_status: self.claim_status@,
            opponent_side: self.opponent_side.deep_view(),
            player_side: self.player_side.deep_view(),
            player_hand: self.player_hand@,
        }
    }
}

impl GameStateView {
    /// The board sides are either still unallocated or hold a slot for each
    /// of the nine flags; they are only ever grown in lockstep.
    pub open spec fn wf(self) -> bool {
        (self.player_side.len() == 0 && self.opponent_side.len() == 0) || (self.player_side.len()
            >= 9 && self.opponent_side.len() >= 9)
    }
}

/// The state a session starts from: directions at their defaults, every
/// sequence empty.
pub open spec fn initial_state() -> GameStateView {
    GameStateView {
        player_direction: Direction::North,
        opponent_direction: Direction::North,
        deck: Seq::empty(),
        colors: Seq::empty(),
        colors_vec: Seq::empty(),
        claim_status: Seq::empty(),
        opponent_side: Seq::empty(),
        player_side: Seq::empty(),
        player_hand: Seq::empty(),
    }
}

impl Default for GameState {
    fn default() -> (s: GameState)
        ensures
            s@ == initial_state(),
    {
        let s = GameState {
            player_direction: Direction::North,
            opponent_direction: Direction::North,
            deck: Vec::new(),
            colors: Vec::new(),
            colors_vec: Vec::new(),
            claim_status: Vec::new(),
            opponent_side: Vec::new(),
            player_side: Vec::new(),
            player_hand: Vec::new(),
        };
        proof {
            assert(s@ =~~= initial_state());
        }
        s
    }
}

/// The first roster position holding `name`, scanning from position `i`;
/// the roster's length if `name` is not declared.
pub open spec fn first_index(colors: Seq<Seq<char>>, name: Seq<char>, i: int) -> int
    decreases colors.len() - i,
{
    if i < 0 || i >= colors.len() || colors[i] == name {
        i
    } else {
        first_index(colors, name, i + 1)
    }
}

/// The color slot assigned to roster position `i`.
pub open spec fn color_of_index(i: int) -> Color {
    if i == 0 {
        Color::Color1
    } else if i == 1 {
        Color::Color2
    } else if i == 2 {
        Color::Color3
    } else if i == 3 {
        Color::Color4
    } else if i == 4 {
        Color::Color5
    } else {
        Color::Color6
    }
}

/// The roster position a color slot reads back from.
pub open spec fn spec_color_index(color: Color) -> int {
    match color {
        Color::Color1 => 0,
        Color::Color2 => 1,
        Color::Color3 => 2,
        Color::Color4 => 3,
        Color::Color5 => 4,
        Color::Color6 => 5,
    }
}

/// Position-based name resolution: the slot of the first roster position
/// holding `name`, or `Color1` as the silent fallback for an undeclared name.
pub open spec fn spec_color_from_string(colors: Seq<Seq<char>>, name: Seq<char>) -> Color {
    let i = first_index(colors, name, 0);
    if i >= colors.len() {
        Color::Color1
    } else {
        color_of_index(i)
    }
}

/// The name a color slot resolves back to.
pub open spec fn spec_string_from_color(colors: Seq<Seq<char>>, color: Color) -> Seq<char> {
    colors[spec_color_index(color)]
}

/// A wire-format card lifted to a resolved card under a roster.
pub open spec fn spec_card_of(colors: Seq<Seq<char>>, cs: CardStringView) -> Card {
    Card { color: spec_color_from_string(colors, cs.color), number: cs.number }
}

/// A whole card list lifted under a roster.
pub open spec fn spec_cards_of(colors: Seq<Seq<char>>, cs: Seq<CardStringView>) -> Seq<Card> {
    cs.map_values(|c: CardStringView| spec_card_of(colors, c))
}

/// Looks `name` up by position in `colors`, as [`spec_color_from_string`]
/// describes.
fn color_lookup(colors: &Vec<String>, name: &String) -> (c: Color)
    ensures
        c == spec_color_from_string(colors.deep_view(), name@),
{
    let ghost roster = colors.deep_view();
    let n = colors.len();
    let mut k: usize = 0;
    loop
        invariant
            k <= n,
            n == colors@.len(),
            roster == colors.deep_view(),
            first_index(roster, name@, 0) == first_index(roster, name@, k as int),
        ensures
            k <= n,
            k as int == first_index(roster, name@, 0),
        decreases n - k,
    {
        if k == n {
            break ;
        }
        proof {
            assert(roster[k as int] == colors@[k as int]@);
        }
        if str_eq(colors[k].as_str(), name.as_str()) {
            break ;
        }
        k = k + 1;
    }
    if k >= n {
        Color::Color1
    } else if k == 0 {
        Color::Color1
    } else if k == 1 {
        Color::Color2
    } else if k == 2 {
        Color::Color3
    } else if k == 3 {
        Color::Color4
    } else if k == 4 {
        Color::Color5
    } else {
        Color::Color6
    }
}

impl GameState {
    /// Resolves a declared color name to its slot; an undeclared name falls
    /// back to `Color1`.
    pub fn color_from_string(&self, name: &String) -> (c: Color)
        ensures
            c == spec_color_from_string(self.colors.deep_view(), name@),
    {
        color_lookup(&self.colors, name)
    }

    /// The declared name a slot stands for; the roster must already hold its
    /// six entries.
    pub fn string_from_color(&self, color: Color) -> (r: String)
        requires
            self.colors@.len() >= 6,
        ensures
            r@ == spec_string_from_color(self.colors.deep_view(), color),
    {
        let i: usize = match color {
            Color::Color1 => 0,
            Color::Color2 => 1,
            Color::Color3 => 2,
            Color::Color4 => 3,
            Color::Color5 => 4,
            Color::Color6 => 5,
        };
        proof {
            assert(self.colors.deep_view()[i as int] == self.colors@[i as int]@);
        }
        self.colors[i].clone()
    }

    /// Lifts one wire-format card under the current roster.
    pub fn convert_card_string_to_card(&self, cs: &CardString) -> (c: Card)
        ensures
            c == spec_card_of(self.colors.deep_view(), cs@),
    {
        Card { number: cs.number, color: self.color_from_string(&cs.color) }
    }

    /// Lifts a whole wire-format card list under the current roster.
    pub fn convert_vector_card_string_to_cards(&self, cs: &Vec<CardString>) -> (r: Vec<Card>)
        ensures
            r@ == spec_cards_of(self.colors.deep_view(), cs.deep_view()),
    {
        let ghost roster = self.colors.deep_view();
        let mut card_vec: Vec<Card> = Vec::new();
        let mut k: usize = 0;
        while k < cs.len()
            invariant
                k <= cs@.len(),
                roster == self.colors.deep_view(),
                card_vec@.len() == k,
                forall|i: int|
                    0 <= i < k ==> card_vec@[i] == spec_card_of(roster, cs.deep_view()[i]),
            decreases cs@.len() - k,
        {
            proof {
                assert(cs.deep_view()[k as int] == cs@[k as int]@);
            }
            let card = self.convert_card_string_to_card(&cs[k]);
            card_vec.push(card);
            k = k + 1;
        }
        proof {
            assert(card_vec@ =~= spec_cards_of(roster, cs.deep_view()));
        }
        card_vec
    }
}

/// The first deck position holding `card`, scanning from position `i`;
/// the deck's length if `card` is not present.
pub open spec fn first_card_index(deck: Seq<Card>, card: Card, i: int) -> int
    decreases deck.len() - i,
{
    if i < 0 || i >= deck.len() || deck[i] == card {
        i
    } else {
        first_card_index(deck, card, i + 1)
    }
}

/// The deck with the first entry equal to `card` removed; unchanged if no
/// entry matches.
pub open spec fn remove_first(deck: Seq<Card>, card: Card) -> Seq<Card> {
    let i = first_card_index(deck, card, 0);
    if i >= deck.len() {
        deck
    } else {
        deck.remove(i)
    }
}

/// The deck with each card of `cards` removed in turn, first match each.
pub open spec fn remove_all(deck: Seq<Card>, cards: Seq<Card>) -> Seq<Card>
    decreases cards.len(),
{
    if cards.len() == 0 {
        deck
    } else {
        remove_first(remove_all(deck, cards.drop_last()), cards.last())
    }
}

/// Removes the first deck entry equal to `card`, if present.
fn remove_card(deck: &mut Vec<Card>, card: Card)
    ensures
        final(deck)@ == remove_first(old(deck)@, card),
{
    let n = deck.len();
    let mut k: usize = 0;
    loop
        invariant
            k <= n,
            n == deck@.len(),
            deck@ == old(deck)@,
            first_card_index(deck@, card, 0) == first_card_index(deck@, card, k as int),
        ensures
            deck@ == old(deck)@,
            k <= n,
            k as int == first_card_index(deck@, card, 0),
        decreases n - k,
    {
        if k == n {
            break ;
        }
        if deck[k] == card {
            break ;
        }
        k = k + 1;
    }
    if k < n {
        deck.remove(k);
    }
}

/// Removes each card of `cards` from the deck in turn.
fn remove_cards(deck: &mut Vec<Card>, cards: &Vec<Card>)
    ensures
        final(deck)@ == remove_all(old(deck)@, cards@),
{
    let n = cards.len();
    let mut k: usize = 0;
    while k < n
        invariant
            k <= n,
            n == cards@.len(),
            deck@ == remove_all(old(deck)@, cards@.subrange(0, k as int)),
        decreases n - k,
    {
        remove_card(deck, cards[k]);
        proof {
            assert(cards@.subrange(0, k + 1).drop_last() =~= cards@.subrange(0, k as int));
            assert(cards@.subrange(0, k + 1).last() == cards@[k as int]);
        }
        k = k + 1;
    }
    proof {
        assert(cards@.subrange(0, n as int) =~= cards@);
    }
}

/// One empty slot per flag.
pub open spec fn nine_empty_slots() -> Seq<Seq<Card>> {
    Seq::new(9, |i: int| Seq::<Card>::empty())
}

/// One unclaimed entry per flag.
pub open spec fn nine_unclaimed() -> Seq<ClaimStatus> {
    Seq::new(9, |i: int| ClaimStatus::Unclaimed)
}

/// The slot each roster entry resolves to, in roster order.
pub open spec fn roster_slots(colors: Seq<Seq<char>>) -> Seq<Color> {
    Seq::new(colors.len(), |k: int| spec_color_from_string(colors, colors[k]))
}

/// The full deck a roster populates: for each number `1..=9` in turn, one
/// card per declared color, in roster order.
pub open spec fn full_deck(colors: Seq<Seq<char>>) -> Seq<Card> {
    Seq::new(
        colors.len() * 9,
        |idx: int|
            Card {
                color: spec_color_from_string(colors, colors[idx % colors.len() as int]),
                number: (idx / colors.len() as int + 1) as i32,
            },
    )
}

/// The other side of the board.
pub open spec fn complement(direction: Direction) -> Direction {
    if direction == Direction::North {
        Direction::South
    } else {
        Direction::North
    }
}

/// The transition a roster declaration makes: nine fresh slots are appended
/// to each side and to the claim tracking, the roster is set, and the full
/// color-by-number composition joins the deck.
pub open spec fn spec_apply_colors(s: GameStateView, colors: Seq<Seq<char>>) -> GameStateView {
    GameStateView {
        player_side: s.player_side + nine_empty_slots(),
        opponent_side: s.opponent_side + nine_empty_slots(),
        claim_status: s.claim_status + nine_unclaimed(),
        colors: colors,
        colors_vec: roster_slots(colors),
        deck: s.deck + full_deck(colors),
        ..s
    }
}

/// The transition a flag-status message makes: the named cards leave the
/// deck, the sides are allocated if still empty, and the named flag's slot on
/// the reporting side is replaced wholesale.
pub open spec fn spec_apply_flag(
    s: GameStateView,
    flag_num: u32,
    direction: Direction,
    cards: Seq<CardStringView>,
) -> GameStateView {
    let resolved = spec_cards_of(s.colors, cards);
    let deck = remove_all(s.deck, resolved);
    let init = s.player_side.len() == 0 || s.opponent_side.len() == 0;
    let pside = if init {
        s.player_side + nine_empty_slots()
    } else {
        s.player_side
    };
    let oside = if init {
        s.opponent_side + nine_empty_slots()
    } else {
        s.opponent_side
    };
    if direction == s.player_direction {
        GameStateView {
            deck,
            player_side: pside.update(flag_num - 1, resolved),
            opponent_side: oside,
            ..s
        }
    } else {
        GameStateView {
            deck,
            player_side: pside,
            opponent_side: oside.update(flag_num - 1, resolved),
            ..s
        }
    }
}

/// How one parsed message transforms the state. `Blank` and `PlayCard` leave
/// it untouched; every other variant is described by its own clause.
pub open spec fn spec_apply(s: GameStateView, m: MessageView) -> GameStateView {
    match m {
        MessageView::Blank => s,
        MessageView::PlayCard => s,
        MessageView::PlayerDirection { direction } => GameStateView {
            player_direction: direction,
            opponent_direction: complement(direction),
            ..s
        },
        MessageView::ColorNames { colors } => spec_apply_colors(s, colors),
        MessageView::FlagClaimStatus { flags_claimed } => GameStateView {
            claim_status: flags_claimed,
            ..s
        },
        MessageView::OpponentPlay { number, card } => GameStateView {
            deck: remove_first(s.deck, spec_card_of(s.colors, card)),
            ..s
        },
        MessageView::PlayerHand { direction, cards } => {
            let resolved = spec_cards_of(s.colors, cards);
            GameStateView { deck: remove_all(s.deck, resolved), player_hand: resolved, ..s }
        },
        MessageView::FlagStatus { flag_num, direction, cards } => spec_apply_flag(
            s,
            flag_num,
            direction,
            cards,
        ),
    }
}

/// Appends one empty slot per flag.
fn push_nine_empty(sides: &mut Vec<Vec<Card>>)
    ensures
        final(sides).deep_view() == old(sides).deep_view() + nine_empty_slots(),
{
    let mut k: usize = 0;
    while k < 9
        invariant
            k <= 9,
            sides.deep_view() =~= old(sides).deep_view() + Seq::new(
                k as nat,
                |i: int| Seq::<Card>::empty(),
            ),
        decreases 9 - k,
    {
        let ghost prev = sides.deep_view();
        sides.push(Vec::new());
        proof {
            assert(sides.deep_view() =~~= prev.push(Seq::<Card>::empty()));
        }
        k = k + 1;
    }
    proof {
        assert(sides.deep_view() =~= old(sides).deep_view() + nine_empty_slots());
    }
}

/// Appends one unclaimed entry per flag.
fn push_nine_unclaimed(claims: &mut Vec<ClaimStatus>)
    ensures
        final(claims)@ == old(claims)@ + nine_unclaimed(),
{
    let mut k: usize = 0;
    while k < 9
        invariant
            k <= 9,
            claims@ =~= old(claims)@ + Seq::new(k as nat, |i: int| ClaimStatus::Unclaimed),
        decreases 9 - k,
    {
        claims.push(ClaimStatus::Unclaimed);
        k = k + 1;
    }
    proof {
        assert(claims@ =~= old(claims)@ + nine_unclaimed());
    }
}

/// Resolves each roster entry to its slot, in roster order.
fn build_roster_slots(colors: &Vec<String>) -> (r: Vec<Color>)
    ensures
        r@ == roster_slots(colors.deep_view()),
{
    let ghost roster = colors.deep_view();
    let n = colors.len();
    let mut slots: Vec<Color> = Vec::new();
    let mut k: usize = 0;
    while k < n
        invariant
            k <= n,
            n == colors@.len(),
            roster == colors.deep_view(),
            slots@.len() == k,
            forall|i: int| 0 <= i < k ==> slots@[i] == spec_color_from_string(roster, roster[i]),
        decreases n - k,
    {
        proof {
            assert(roster[k as int] == colors@[k as int]@);
        }
        let slot = color_lookup(colors, &colors[k]);
        slots.push(slot);
        k = k + 1;
    }
    proof {
        assert(slots@ =~= roster_slots(roster));
    }
    slots
}

/// Appends the full color-by-number composition to the deck: for each number
/// `1..=9` in turn, one card per declared color, in roster order.
fn append_full_deck(deck: &mut Vec<Card>, colors: &Vec<String>)
    ensures
        final(deck)@ == old(deck)@ + full_deck(colors.deep_view()),
{
    let ghost roster = colors.deep_view();
    let n = colors.len();
    let mut i: i32 = 1;
    while i <= 9
        invariant
            1 <= i <= 10,
            n == colors@.len(),
            roster == colors.deep_view(),
            deck@ =~= old(deck)@ + full_deck(roster).subrange(0, (i - 1) * n as int),
        decreases 10 - i,
    {
        let mut k: usize = 0;
        while k < n
            invariant
                1 <= i <= 9,
                k <= n,
                n == colors@.len(),
                roster == colors.deep_view(),
                deck@ =~= old(deck)@ + full_deck(roster).subrange(0, (i - 1) * n as int + k),
            decreases n - k,
        {
            proof {
                assert(roster[k as int] == colors@[k as int]@);
            }
            let card = Card { color: color_lookup(colors, &colors[k]), number: i };
            let ghost idx = (i - 1) * n as int + k;
            proof {
                vstd::arithmetic::mul::lemma_mul_inequality(i - 1, 8, n as int);
                assert(0 <= idx && idx + 1 <= n as int * 9);
                vstd::arithmetic::div_mod::lemma_fundamental_div_mod_converse(
                    idx,
                    n as int,
                    i - 1,
                    k as int,
                );
                assert(full_deck(roster)[idx] == card);
                assert(full_deck(roster).subrange(0, idx + 1) =~= full_deck(roster).subrange(
                    0,
                    idx,
                ).push(card));
            }
            deck.push(card);
            k = k + 1;
        }
        proof {
            vstd::arithmetic::mul::lemma_mul_is_distributive_add_other_way(n as int, i - 1, 1);
            assert((i - 1) * n as int + n as int == i * n as int);
        }
        i = i + 1;
    }
    proof {
        assert(full_deck(roster).subrange(0, 9 * n as int) =~= full_deck(roster));
    }
}

/// Replaces one flag's slot wholesale.
fn set_slot(sides: &mut Vec<Vec<Card>>, idx: usize, cards: Vec<Card>)
    requires
        idx < old(sides)@.len(),
    ensures
        final(sides).deep_view() == old(sides).deep_view().update(idx as int, cards@),
{
    let ghost cv = cards@;
    sides[idx] = cards;
    proof {
        assert(sides.deep_view() =~~= old(sides).deep_view().update(idx as int, cv));
    }
}

/// The fixed part of the line announced when the player's direction resolves.
pub open spec fn announce_prefix(direction: Direction) -> Seq<char> {
    "player "@ + spec_direction_string(direction) + " "@
}

/// Owns the state and applies one message per incoming line.
pub struct GameHandler {
    pub state: GameState,
}

impl Default for GameHandler {
    fn default() -> (h: GameHandler)
        ensures
            h.state@ == initial_state(),
    {
        GameHandler { state: Default::default() }
    }
}

impl GameHandler {
    /// Parses one line and applies the resulting message, as [`spec_apply`]
    /// describes. The returned text, if any, is the response line to send:
    /// the bot's move for a play-card prompt, or the direction announcement
    /// (`player <direction> <bot name>`) when the player's direction resolves.
    pub fn run_one_round<A: AiInterface>(&mut self, ai: &A, message: String) -> (response: Option<
        String,
    >)
        requires
            old(self).state@.wf(),
        ensures
            final(self).state@ == spec_apply(old(self).state@, spec_parse_message(message@)),
            final(self).state@.wf(),
            (response is Some) == (spec_parse_message(message@) is PlayerDirection
                || spec_parse_message(message@) is PlayCard),
            spec_parse_message(message@) matches MessageView::PlayerDirection { direction }
                ==> response matches Some(r) && (exists|name: Seq<char>|
                r@ == announce_prefix(direction) + name),
    {
        let ghost m0 = spec_parse_message(message@);
        let ghost s0 = self.state@;
        let x = parse_message(message);
        match x {
            Message::OpponentPlay { number: _, card } => {
                let card = self.state.convert_card_string_to_card(&card);
                remove_card(&mut self.state.deck, card);
                proof {
                    assert(self.state@ =~~= spec_apply(s0, m0));
                }
                None
            },
            Message::PlayerHand { direction: _, cards } => {
                let cards = self.state.convert_vector_card_string_to_cards(&cards);
                remove_cards(&mut self.state.deck, &cards);
                self.state.player_hand = cards;
                proof {
                    assert(self.state@ =~~= spec_apply(s0, m0));
                }
                None
            },
            Message::FlagStatus { flag_num: num, direction, cards } => {
                let cards = self.state.convert_vector_card_string_to_cards(&cards);
                remove_cards(&mut self.state.deck, &cards);
                if self.state.player_side.len() == 0 || self.state.opponent_side.len() == 0 {
                    push_nine_empty(&mut self.state.player_side);
                    push_nine_empty(&mut self.state.opponent_side);
                }
                proof {
                    crate::message_parsing::lemma_parse_flag_num_range(
                        crate::scan::spec_tokens(message@),
                    );
                }
                let idx = (num - 1) as usize;
                if direction == self.state.player_direction {
                    set_slot(&mut self.state.player_side, idx, cards);
                } else {
                    set_slot(&mut self.state.opponent_side, idx, cards);
                }
                proof {
                    assert(self.state@ =~~= spec_apply(s0, m0));
                }
                None
            },
            Message::FlagClaimStatus { flags_claimed } => {
                self.state.claim_status = flags_claimed;
                proof {
                    assert(self.state@ =~~= spec_apply(s0, m0));
                }
                None
            },
            Message::PlayerDirection { direction } => {
                self.state.player_direction = if direction == Direction::North {
                    Direction::North
                } else {
                    Direction::South
                };
                self.state.opponent_direction = if direction == Direction::South {
                    Direction::North
                } else {
                    Direction::South
                };
                let mut line = "player ".to_owned();
                line.append(get_direction_string(direction).as_str());
                line.append(" ");
                let bot_name = ai.get_bot_name();
                line.append(bot_name.as_str());
                proof {
                    assert(self.state@ =~~= spec_apply(s0, m0));
                    assert(line@ =~= announce_prefix(direction) + bot_name@);
                }
                Some(line)
            },
            Message::ColorNames { colors } => {
                push_nine_empty(&mut self.state.player_side);
                push_nine_empty(&mut self.state.opponent_side);
                push_nine_unclaimed(&mut self.state.claim_status);
                self.state.colors = colors;
                self.state.colors_vec = build_roster_slots(&self.state.colors);
                append_full_deck(&mut self.state.deck, &self.state.colors);
                proof {
                    assert(self.state@ =~~= spec_apply(s0, m0));
                }
                None
            },
            Message::PlayCard => {
                let r = ai.update_game_state(&self.state);
                proof {
                    assert(self.state@ =~~= spec_apply(s0, m0));
                }
                Some(r)
            },
            Message::Blank => {
                proof {
                    assert(self.state@ =~~= spec_apply(s0, m0));
                }
                None
            },
        }
    }
}

} // verus!
