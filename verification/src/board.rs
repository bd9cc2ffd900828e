//! A board as the session holds it in memory: columns from left to right,
//! each with its cards from top to bottom.

use vstd::prelude::*;
use vstd::multiset::Multiset;

verus! {

/// A work item.
#[derive(Debug)]
pub struct Card {
    /// The identity that is unique over all boards.
    pub id: u64,
    /// The identity within the card's board, counted from 1.
    pub number: u64,
    pub title: String,
    pub body: String,
    pub inserted_at: u64,
    pub updated_at: u64,
}

/// What a card holds.
pub struct CardView {
    pub id: u64,
    pub number: u64,
    pub title: Seq<char>,
    pub body: Seq<char>,
    pub inserted_at: u64,
    pub updated_at: u64,
}

impl View for Card {
    type V = CardView;

    open spec fn view(&self) -> CardView {
        CardView {
            id: self.id,
            number: self.number,
            title: self.title@,
            body: self.body@,
            inserted_at: self.inserted_at,
            updated_at: self.updated_at,
        }
    }
}

/// A named lane of a board.
#[derive(Debug)]
pub struct Column {
    pub name: String,
    pub cards: Vec<Card>,
}

/// What a column holds.
pub struct ColumnView {
    pub name: Seq<char>,
    pub cards: Seq<CardView>,
}

/// What a list of cards holds.
pub open spec fn card_views(cards: Seq<Card>) -> Seq<CardView> {
    cards.map_values(|c: Card| c@)
}

impl View for Column {
    type V = ColumnView;

    open spec fn view(&self) -> ColumnView {
        ColumnView { name: self.name@, cards: card_views(self.cards@) }
    }
}

impl Column {
    /// The text that stands for the column: its name.
    pub fn label(&self) -> (text: String)
        ensures
            text@ == self@.name,
    {
        self.name.clone()
    }
}

/// What a list of columns holds.
pub open spec fn column_views(columns: Seq<Column>) -> Seq<ColumnView> {
    columns.map_values(|c: Column| c@)
}

/// A board with its columns and cards.
#[derive(Debug)]
pub struct Board {
    pub id: u64,
    pub name: String,
    pub columns: Vec<Column>,
}

/// What a board holds.
pub struct BoardView {
    pub id: u64,
    pub name: Seq<char>,
    pub columns: Seq<ColumnView>,
}

impl View for Board {
    type V = BoardView;

    open spec fn view(&self) -> BoardView {
        BoardView { id: self.id, name: self.name@, columns: column_views(self.columns@) }
    }
}

/// The summary of a board that the board picker shows.
#[derive(Debug)]
pub struct BoardMeta {
    pub id: u64,
    pub name: String,
    /// The names of the board's columns, from left to right.
    pub columns: Vec<String>,
    pub inserted_at: u64,
    pub updated_at: u64,
    pub viewed_at: u64,
}

/// What a summary holds.
pub struct BoardMetaView {
    pub id: u64,
    pub name: Seq<char>,
    pub columns: Seq<Seq<char>>,
    pub inserted_at: u64,
    pub updated_at: u64,
    pub viewed_at: u64,
}

/// What a list of names holds.
pub open spec fn name_views(names: Seq<String>) -> Seq<Seq<char>> {
    names.map_values(|n: String| n@)
}

impl View for BoardMeta {
    type V = BoardMetaView;

    open spec fn view(&self) -> BoardMetaView {
        BoardMetaView {
            id: self.id,
            name: self.name@,
            columns: name_views(self.columns@),
            inserted_at: self.inserted_at,
            updated_at: self.updated_at,
            viewed_at: self.viewed_at,
        }
    }
}

/// What a list of summaries holds.
pub open spec fn meta_views(metas: Seq<BoardMeta>) -> Seq<BoardMetaView> {
    metas.map_values(|m: BoardMeta| m@)
}

/// The cards stand newest first: identities fall from top to bottom.
pub open spec fn newest_first(cards: Seq<Card>) -> bool {
    forall|i: int, j: int| 0 <= i < j < cards.len() ==> cards[i].id >= cards[j].id
}

/// The cards of `cards` that have the identity `id`, in their order.
pub open spec fn with_id(cards: Seq<Card>, id: u64) -> Seq<Card>
    decreases cards.len(),
{
    if cards.len() == 0 {
        Seq::empty()
    } else if cards.last().id == id {
        with_id(cards.drop_last(), id).push(cards.last())
    } else {
        with_id(cards.drop_last(), id)
    }
}

/// The cards of an identity in two rows put together are those of the
/// first row, then those of the second.
pub proof fn lemma_with_id_add(a: Seq<Card>, b: Seq<Card>, id: u64)
    ensures
        with_id(a + b, id) == with_id(a, id) + with_id(b, id),
    decreases b.len(),
{
    if b.len() == 0 {
        assert(a + b =~= a);
        assert(with_id(a, id) + with_id(b, id) =~= with_id(a, id));
    } else {
        lemma_with_id_add(a, b.drop_last(), id);
        assert((a + b).drop_last() =~= a + b.drop_last());
        assert((a + b).last() == b.last());
        if b.last().id == id {
            assert(with_id(a, id) + with_id(b.drop_last(), id).push(b.last()) =~= (with_id(a, id)
                + with_id(b.drop_last(), id)).push(b.last()));
        }
    }
}

/// A row without a card of an identity holds no card of that identity.
pub proof fn lemma_with_id_none(cards: Seq<Card>, id: u64)
    requires
        forall|k: int| 0 <= k < cards.len() ==> cards[k].id != id,
    ensures
        with_id(cards, id) == Seq::<Card>::empty(),
    decreases cards.len(),
{
    if cards.len() > 0 {
        lemma_with_id_none(cards.drop_last(), id);
    }
}

/// Puts the cards in the order newest first.
///
/// The result holds the same cards as before, each as often as before, and
/// cards of the same identity stand in the order in which they stood.
pub fn sort_newest_first(cards: &mut Vec<Card>)
    ensures
        newest_first(final(cards)@),
        final(cards)@.to_multiset() == old(cards)@.to_multiset(),
        forall|id: u64| with_id(final(cards)@, id) == with_id(old(cards)@, id),
{
    broadcast use vstd::multiset::group_multiset_axioms;

    let mut sorted: Vec<Card> = Vec::new();
    proof {
        sorted@.to_multiset_ensures();
        assert(sorted@.to_multiset() =~= Multiset::empty());
        assert(Multiset::empty().add(cards@.to_multiset()) =~= cards@.to_multiset());
        assert forall|id: u64| with_id(sorted@, id) + with_id(cards@, id) == with_id(
            cards@,
            id,
        ) by {
            assert(with_id(sorted@, id) + with_id(cards@, id) =~= with_id(cards@, id));
        }
    }
    while cards.len() > 0
        invariant
            newest_first(sorted@),
            sorted@.to_multiset().add(cards@.to_multiset()) == old(cards)@.to_multiset(),
            forall|id: u64|
                with_id(sorted@, id) + with_id(cards@, id) == with_id(old(cards)@, id),
        decreases cards.len(),
    {
        let ghost before = cards@;
        let card = cards.remove(0);
        let mut pos: usize = 0;
        while pos < sorted.len() && sorted[pos].id >= card.id
            invariant
                pos <= sorted.len(),
                forall|k: int| 0 <= k < pos ==> sorted@[k].id >= card.id,
            decreases sorted.len() - pos,
        {
            pos = pos + 1;
        }
        let ghost placed = sorted@;
        sorted.insert(pos, card);
        proof {
            assert(before =~= seq![card] + cards@);
            assert(before.to_multiset() == cards@.to_multiset().insert(card)) by {
                assert(before =~= cards@.insert(0, card));
                vstd::seq_lib::to_multiset_insert(cards@, 0, card);
            }
            assert(sorted@.to_multiset() == placed.to_multiset().insert(card)) by {
                vstd::seq_lib::to_multiset_insert(placed, pos as int, card);
            }
            assert(sorted@.to_multiset().add(cards@.to_multiset()) =~= placed.to_multiset().add(
                before.to_multiset(),
            ));
            let head = placed.take(pos as int);
            let tail = placed.skip(pos as int);
            assert(placed =~= head + tail);
            assert(sorted@ =~= head + seq![card] + tail);
            assert forall|id: u64| with_id(sorted@, id) + with_id(cards@, id) == with_id(
                old(cards)@,
                id,
            ) by {
                lemma_with_id_add(head, tail, id);
                lemma_with_id_add(head + seq![card], tail, id);
                lemma_with_id_add(head, seq![card], id);
                lemma_with_id_add(seq![card], cards@, id);
                assert(seq![card].drop_last() =~= Seq::<Card>::empty());
                assert(seq![card].last() == card);
                assert(with_id(Seq::<Card>::empty(), id) =~= Seq::<Card>::empty());
                assert(with_id(placed, id) + with_id(before, id) == with_id(old(cards)@, id));
                if card.id == id {
                    assert forall|k: int| 0 <= k < tail.len() implies tail[k].id != id by {
                        assert(placed[pos as int].id < card.id);
                        if k > 0 {
                            assert(placed[pos as int].id >= placed[pos + k].id);
                        }
                    }
                    lemma_with_id_none(tail, id);
                    assert(with_id(seq![card], id) =~= seq![card]);
                    assert(with_id(sorted@, id) + with_id(cards@, id) =~= with_id(placed, id)
                        + with_id(before, id));
                } else {
                    assert(with_id(seq![card], id) =~= Seq::<Card>::empty());
                    assert(with_id(sorted@, id) + with_id(cards@, id) =~= with_id(placed, id)
                        + with_id(before, id));
                }
            }
        }
    }
    proof {
        assert(cards@.to_multiset() =~= Multiset::empty()) by {
            assert(cards@ =~= Seq::<Card>::empty());
            cards@.to_multiset_ensures();
        }
        assert(sorted@.to_multiset().add(Multiset::empty()) =~= sorted@.to_multiset());
        assert forall|id: u64| with_id(sorted@, id) == with_id(old(cards)@, id) by {
            assert(with_id(sorted@, id) + with_id(cards@, id) =~= with_id(sorted@, id));
        }
    }
    *cards = sorted;
}

} // verus!
