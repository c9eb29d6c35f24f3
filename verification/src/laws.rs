//! Laws of the state accumulator, stated over the same spec functions that
//! the executable functions' contracts use and proved once and for all.

use vstd::prelude::*;

use crate::game_state::{
    GameStateView, color_of_index, complement, first_card_index, first_index, full_deck,
    remove_all, remove_first, spec_apply, spec_card_of, spec_cards_of, spec_color_from_string,
    spec_color_index, spec_string_from_color,
};
use crate::message_parsing::{Card, CardStringView, Color, Direction, MessageView};

verus! {

pub proof fn lemma_first_index(colors: Seq<Seq<char>>, name: Seq<char>, i: int)
    requires
        0 <= i <= colors.len(),
    ensures
        i <= first_index(colors, name, i) <= colors.len(),
        forall|j: int| i <= j < first_index(colors, name, i) ==> colors[j] != name,
        first_index(colors, name, i) < colors.len() ==> colors[first_index(colors, name, i)]
            == name,
    decreases colors.len() - i,
{
    if i < colors.len() && colors[i] != name {
        lemma_first_index(colors, name, i + 1);
    }
}

pub proof fn lemma_first_card_index(deck: Seq<Card>, card: Card, i: int)
    requires
        0 <= i <= deck.len(),
    ensures
        i <= first_card_index(deck, card, i) <= deck.len(),
    decreases deck.len() - i,
{
    if i < deck.len() && deck[i] != card {
        lemma_first_card_index(deck, card, i + 1);
    }
}

/// Removing one card shrinks the deck by one entry if present, else by none.
pub proof fn lemma_remove_first_len(deck: Seq<Card>, card: Card)
    ensures
        remove_first(deck, card).len() <= deck.len(),
{
    lemma_first_card_index(deck, card, 0);
}

/// Removing a list of cards never grows the deck.
pub proof fn lemma_remove_all_len(deck: Seq<Card>, cards: Seq<Card>)
    ensures
        remove_all(deck, cards).len() <= deck.len(),
    decreases cards.len(),
{
    if cards.len() > 0 {
        lemma_remove_all_len(deck, cards.drop_last());
        lemma_remove_first_len(remove_all(deck, cards.drop_last()), cards.last());
    }
}

/// One play, hand report or flag report never grows the deck.
pub proof fn lemma_deck_monotone_step(s: GameStateView, m: MessageView)
    requires
        m is OpponentPlay || m is PlayerHand || m is FlagStatus,
    ensures
        spec_apply(s, m).deck.len() <= s.deck.len(),
{
    match m {
        MessageView::OpponentPlay { number, card } => {
            lemma_remove_first_len(s.deck, spec_card_of(s.colors, card));
        },
        MessageView::PlayerHand { direction, cards } => {
            lemma_remove_all_len(s.deck, spec_cards_of(s.colors, cards));
        },
        MessageView::FlagStatus { flag_num, direction, cards } => {
            lemma_remove_all_len(s.deck, spec_cards_of(s.colors, cards));
        },
        _ => {
        },
    }
}

/// A sequence of messages applied in order, oldest first.
pub open spec fn spec_apply_all(s: GameStateView, ms: Seq<MessageView>) -> GameStateView
    decreases ms.len(),
{
    if ms.len() == 0 {
        s
    } else {
        spec_apply(spec_apply_all(s, ms.drop_last()), ms.last())
    }
}

/// Deck size is monotonically non-increasing across any sequence of plays,
/// hand reports and flag reports.
pub proof fn lemma_deck_monotone(s: GameStateView, ms: Seq<MessageView>)
    requires
        forall|i: int|
            0 <= i < ms.len() ==> (ms[i] is OpponentPlay || ms[i] is PlayerHand
                || ms[i] is FlagStatus),
    ensures
        spec_apply_all(s, ms).deck.len() <= s.deck.len(),
    decreases ms.len(),
{
    if ms.len() > 0 {
        lemma_deck_monotone(s, ms.drop_last());
        lemma_deck_monotone_step(spec_apply_all(s, ms.drop_last()), ms.last());
    }
}

/// After any player-direction message the two recorded directions are the
/// given one and its complement, whatever the state held before.
pub proof fn lemma_directions_complementary(s: GameStateView, direction: Direction)
    ensures
        spec_apply(s, MessageView::PlayerDirection { direction }).player_direction == direction,
        spec_apply(s, MessageView::PlayerDirection { direction }).opponent_direction == complement(
            direction,
        ),
        spec_apply(s, MessageView::PlayerDirection { direction }).player_direction != spec_apply(
            s,
            MessageView::PlayerDirection { direction },
        ).opponent_direction,
{
}

/// In a roster with no repeated names, each declared name resolves to the
/// slot of its own position.
pub proof fn lemma_roster_resolution(colors: Seq<Seq<char>>)
    requires
        forall|i: int, j: int| 0 <= i < j < colors.len() ==> colors[i] != colors[j],
    ensures
        forall|k: int|
            0 <= k < colors.len() ==> #[trigger] spec_color_from_string(colors, colors[k])
                == color_of_index(k),
{
    assert forall|k: int| 0 <= k < colors.len() implies #[trigger] spec_color_from_string(
        colors,
        colors[k],
    ) == color_of_index(k) by {
        lemma_first_index(colors, colors[k], 0);
        let fi = first_index(colors, colors[k], 0);
        assert(fi <= k);
    }
}

/// Round trip: for every name in a declared six-entry roster, resolving the
/// name to its slot and reading the slot back yields the same name; this
/// holds even when the roster repeats a name, because resolution picks the
/// first matching position.
pub proof fn lemma_color_round_trip(colors: Seq<Seq<char>>, i: int)
    requires
        colors.len() == 6,
        0 <= i < 6,
    ensures
        spec_string_from_color(colors, spec_color_from_string(colors, colors[i])) == colors[i],
{
    lemma_first_index(colors, colors[i], 0);
    let fi = first_index(colors, colors[i], 0);
    assert(fi <= i);
    assert(spec_color_index(color_of_index(fi)) == fi);
}

/// Immediately after a roster declaration of six distinct names from a state
/// whose deck is empty, the deck holds exactly 54 cards, and each color slot
/// and number in `1..=9` appears on exactly one of them: 9 entries per
/// declared color, each number once per color.
pub proof fn lemma_deck_after_colors(
    s: GameStateView,
    colors: Seq<Seq<char>>,
    slot: Color,
    number: i32,
)
    requires
        s.deck.len() == 0,
        colors.len() == 6,
        forall|i: int, j: int| 0 <= i < j < 6 ==> colors[i] != colors[j],
        1 <= number <= 9,
    ensures
        spec_apply(s, MessageView::ColorNames { colors }).deck.len() == 54,
        spec_apply(s, MessageView::ColorNames { colors }).deck.to_multiset().count(
            Card { color: slot, number },
        ) == 1,
{
    broadcast use vstd::seq_lib::group_to_multiset_ensures;

    let deck = spec_apply(s, MessageView::ColorNames { colors }).deck;
    assert(deck =~= full_deck(colors));
    lemma_roster_resolution(colors);
    assert forall|idx: int| 0 <= idx < 54 implies #[trigger] deck[idx] == Card {
        color: color_of_index(idx % 6),
        number: (idx / 6 + 1) as i32,
    } by {
        vstd::arithmetic::div_mod::lemma_fundamental_div_mod(idx, 6);
    }
    assert(deck.no_duplicates()) by {
        assert forall|i: int, j: int|
            0 <= i < deck.len() && 0 <= j < deck.len() && i != j implies deck[i] != deck[j] by {
            vstd::arithmetic::div_mod::lemma_fundamental_div_mod(i, 6);
            vstd::arithmetic::div_mod::lemma_fundamental_div_mod(j, 6);
        }
    }
    let card = Card { color: slot, number };
    let idx = (number - 1) * 6 + spec_color_index(slot);
    vstd::arithmetic::div_mod::lemma_fundamental_div_mod_converse(
        idx,
        6,
        number - 1,
        spec_color_index(slot),
    );
    assert(deck[idx] == card);
    assert(deck.contains(card));
    deck.lemma_multiset_has_no_duplicates();
    assert(deck.to_multiset().count(card) > 0);
}

/// A flag report replaces the named flag's slot wholesale: the slot ends up
/// holding exactly the message's resolved card list, and re-applying the same
/// report leaves that same list, not an accumulation.
pub proof fn lemma_flag_status_replaces(
    s: GameStateView,
    flag_num: u32,
    direction: Direction,
    cards: Seq<CardStringView>,
)
    requires
        s.wf(),
        1 <= flag_num <= 9,
    ensures
        ({
            let m = MessageView::FlagStatus { flag_num, direction, cards };
            let s1 = spec_apply(s, m);
            let s2 = spec_apply(s1, m);
            let resolved = spec_cards_of(s.colors, cards);
            &&& (if direction == s.player_direction {
                s1.player_side[flag_num - 1]
            } else {
                s1.opponent_side[flag_num - 1]
            }) == resolved
            &&& (if direction == s.player_direction {
                s2.player_side[flag_num - 1]
            } else {
                s2.opponent_side[flag_num - 1]
            }) == resolved
        }),
{
}

} // verus!
