//! The loaded board and the store agree: every column in memory holds the
//! cards that the store keeps in that column, each once, and, whenever no
//! card is being moved, newest first.

use vstd::prelude::*;
use crate::board::{Board, Card, card_views, column_views, newest_first};
use crate::error::Error;
use crate::mode::{Action, ConfirmationState, Message, Mode};
use crate::model::Model;
use crate::tables::{BoardRec, ColumnRec, Tables, card_view, column_before};
use crate::text::{has_heading, heading_text, text_after_heading};
use crate::update::stepped;

verus! {

/// The store keeps card `id` in column `column_id`.
pub open spec fn stored_in(t: Tables, column_id: u64, id: u64) -> bool {
    exists|j: int|
        0 <= j < t.cards.len() && (#[trigger] t.cards[j]).id == id && t.cards[j].column_id
            == column_id
}

/// Some card of `cards` has the identity `id`.
pub open spec fn holds_card(cards: Seq<Card>, id: u64) -> bool {
    exists|i: int| 0 <= i < cards.len() && (#[trigger] cards[i]).id == id
}

/// No two of `cards` share an identity.
pub open spec fn distinct_cards(cards: Seq<Card>) -> bool {
    forall|i: int, k: int| 0 <= i < k < cards.len() ==> cards[i].id != cards[k].id
}

/// The cards stand strictly newest first.
pub open spec fn strictly_newest_first(cards: Seq<Card>) -> bool {
    forall|i: int, k: int| 0 <= i < k < cards.len() ==> cards[i].id > cards[k].id
}

/// `cards` are the cards that the store keeps in column `column_id`, each
/// once.
pub open spec fn column_agrees(t: Tables, column_id: u64, cards: Seq<Card>) -> bool {
    &&& distinct_cards(cards)
    &&& forall|id: u64| holds_card(cards, id) <==> stored_in(t, column_id, id)
}

/// The columns of `board` are `cols`, under their names, and each holds the
/// cards that the store keeps in it.
pub open spec fn columns_agree(t: Tables, cols: Seq<ColumnRec>, board: Board) -> bool {
    &&& cols.len() == board.columns@.len()
    &&& forall|k: int|
        0 <= k < cols.len() ==> (#[trigger] board.columns@[k]).name@ == cols[k].name
            && column_agrees(t, cols[k].id, board.columns@[k].cards@)
}

/// `board` shows the columns that the store keeps for it, from left to
/// right, each with the cards that the store keeps in it.
pub open spec fn board_agrees(t: Tables, board: Board) -> bool {
    exists|cols: Seq<ColumnRec>|
        t.is_column_listing(board.id, cols) && #[trigger] columns_agree(t, cols, board)
}

/// Every column of `board` has its cards strictly newest first.
pub open spec fn board_ordered(board: Board) -> bool {
    forall|k: int|
        0 <= k < board.columns@.len() ==> strictly_newest_first(
            (#[trigger] board.columns@[k]).cards@,
        )
}

/// The session and its store agree: the picker has no board loaded; a
/// loaded board is the one that the selection names, it shows what the
/// store keeps, and its cards stand newest first unless a card is being
/// moved.
pub open spec fn coherent(model: Model) -> bool {
    &&& model.wf()
    &&& model.mode == Mode::ViewingBoards ==> model.board is None
    &&& match model.board {
        None => true,
        Some(board) => {
            &&& board.id == model.selected.board_id
            &&& board_agrees(model.repo@, board)
            &&& model.mode != Mode::MovingCard ==> board_ordered(board)
        },
    }
}

/// Where a card is kept once a card has been added: the new card is in the
/// leftmost column of its board, and every other card where it was.
pub proof fn lemma_stored_after_insert(
    t: Tables,
    board_id: u64,
    title: Seq<char>,
    body: Seq<char>,
    column_id: u64,
    id: u64,
)
    requires
        t.wf(),
        t.insert_card_error(board_id) is None,
    ensures
        stored_in(t.insert_card(board_id, title, body), column_id, id) <==> stored_in(
            t,
            column_id,
            id,
        ) || (id == t.next_card_id && column_id == t.columns[t.first_column(board_id)].id),
        !stored_in(t, column_id, t.next_card_id),
{
    let u = t.insert_card(board_id, title, body);
    let n = t.cards.len() as int;
    assert(u.cards[n] == t.new_card(board_id, title, body));
    if stored_in(t, column_id, id) {
        let j = choose|j: int|
            0 <= j < t.cards.len() && (#[trigger] t.cards[j]).id == id && t.cards[j].column_id
                == column_id;
        assert(u.cards[j] == t.cards[j]);
    }
    if stored_in(u, column_id, id) {
        let j = choose|j: int|
            0 <= j < u.cards.len() && (#[trigger] u.cards[j]).id == id && u.cards[j].column_id
                == column_id;
        if j < n {
            assert(u.cards[j] == t.cards[j]);
        }
    }
    if stored_in(t, column_id, t.next_card_id) {
        let j = choose|j: int|
            0 <= j < t.cards.len() && (#[trigger] t.cards[j]).id == t.next_card_id
                && t.cards[j].column_id == column_id;
        assert(t.cards[j].id < t.next_card_id);
    }
}

/// Where a card is kept once a card has been deleted: the deleted card
/// nowhere, and every other card where it was.
pub proof fn lemma_stored_after_delete(t: Tables, deleted: u64, column_id: u64, id: u64)
    requires
        t.wf(),
    ensures
        stored_in(t.delete_card(deleted), column_id, id) <==> stored_in(t, column_id, id) && id
            != deleted,
{
    let u = t.delete_card(deleted);
    if t.has_card(deleted) {
        let w = t.card_index(deleted);
        t.lemma_card_index(w);
        if stored_in(t, column_id, id) && id != deleted {
            let j = choose|j: int|
                0 <= j < t.cards.len() && (#[trigger] t.cards[j]).id == id && t.cards[j].column_id
                    == column_id;
            let k = if j < w { j } else { j - 1 };
            assert(u.cards[k] == t.cards[j]);
        }
        if stored_in(u, column_id, id) {
            let k = choose|k: int|
                0 <= k < u.cards.len() && (#[trigger] u.cards[k]).id == id && u.cards[k].column_id
                    == column_id;
            let j = if k < w { k } else { k + 1 };
            assert(u.cards[k] == t.cards[j]);
            t.lemma_card_index(j);
        }
    } else {
        if stored_in(t, column_id, id) {
            let j = choose|j: int|
                0 <= j < t.cards.len() && (#[trigger] t.cards[j]).id == id && t.cards[j].column_id
                    == column_id;
            assert(t.cards[j].id == id);
        }
    }
}

/// Where a card is kept once a card has changed its column: the moved card
/// in its new column alone, and every other card where it was.
pub proof fn lemma_stored_after_move(
    t: Tables,
    board_id: u64,
    moved: u64,
    name: Seq<char>,
    column_id: u64,
    id: u64,
)
    requires
        t.wf(),
        t.can_move_card(board_id, moved, name),
        t.clock < u64::MAX,
    ensures
        stored_in(t.move_card(board_id, moved, name), column_id, id) <==> if id == moved {
            column_id == t.columns[t.column_index(board_id, name)].id
        } else {
            stored_in(t, column_id, id)
        },
{
    let u = t.move_card(board_id, moved, name);
    let w = t.card_index(moved);
    t.lemma_card_index(w);
    assert(u.cards[w].id == moved);
    if stored_in(t, column_id, id) && id != moved {
        let j = choose|j: int|
            0 <= j < t.cards.len() && (#[trigger] t.cards[j]).id == id && t.cards[j].column_id
                == column_id;
        assert(u.cards[j] == t.cards[j]);
    }
    if stored_in(u, column_id, id) {
        let j = choose|j: int|
            0 <= j < u.cards.len() && (#[trigger] u.cards[j]).id == id && u.cards[j].column_id
                == column_id;
        if j != w {
            assert(u.cards[j] == t.cards[j]);
            t.lemma_card_index(j);
        }
    }
}

/// A card is kept in one column only.
pub proof fn lemma_stored_once(t: Tables, a: u64, b: u64, id: u64)
    requires
        t.ids_ordered(),
        stored_in(t, a, id),
        stored_in(t, b, id),
    ensures
        a == b,
{
    let i = choose|j: int|
        0 <= j < t.cards.len() && (#[trigger] t.cards[j]).id == id && t.cards[j].column_id == a;
    let k = choose|j: int|
        0 <= j < t.cards.len() && (#[trigger] t.cards[j]).id == id && t.cards[j].column_id == b;
    t.lemma_card_index(i);
    t.lemma_card_index(k);
}

/// A card put on top of a column is held there, beside those that were.
pub proof fn lemma_held_after_insert(cards: Seq<Card>, card: Card)
    requires
        distinct_cards(cards),
        !holds_card(cards, card.id),
    ensures
        distinct_cards(cards.insert(0, card)),
        forall|id: u64|
            holds_card(cards.insert(0, card), id) <==> holds_card(cards, id) || id == card.id,
{
    let new = cards.insert(0, card);
    assert(new[0] == card);
    assert forall|i: int| 0 <= i < cards.len() implies new[i + 1] == #[trigger] cards[i] by {}
    assert forall|i: int, k: int| 0 <= i < k < new.len() implies new[i].id != new[k].id by {
        if i == 0 {
            assert(cards[k - 1].id == new[k].id);
        } else {
            assert(cards[i - 1].id == new[i].id);
            assert(cards[k - 1].id == new[k].id);
        }
    }
    assert forall|id: u64| holds_card(new, id) <==> holds_card(cards, id) || id == card.id by {
        if holds_card(cards, id) {
            let i = choose|i: int| 0 <= i < cards.len() && (#[trigger] cards[i]).id == id;
            assert(new[i + 1].id == id);
        }
        if holds_card(new, id) && id != card.id {
            let i = choose|i: int| 0 <= i < new.len() && (#[trigger] new[i]).id == id;
            assert(cards[i - 1].id == id);
        }
    }
}

/// A card taken from a column is held there no longer; the others are.
pub proof fn lemma_held_after_remove(cards: Seq<Card>, at: int)
    requires
        distinct_cards(cards),
        0 <= at < cards.len(),
    ensures
        distinct_cards(cards.remove(at)),
        forall|id: u64|
            holds_card(cards.remove(at), id) <==> holds_card(cards, id) && id != cards[at].id,
        strictly_newest_first(cards) ==> strictly_newest_first(cards.remove(at)),
{
    let new = cards.remove(at);
    assert forall|i: int| 0 <= i < new.len() implies #[trigger] new[i] == cards[if i < at {
        i
    } else {
        i + 1
    }] by {}
    assert forall|i: int, k: int| 0 <= i < k < new.len() implies new[i].id != new[k].id by {
        let a = if i < at { i } else { i + 1 };
        let b = if k < at { k } else { k + 1 };
        assert(cards[a].id != cards[b].id);
    }
    assert forall|id: u64| holds_card(new, id) <==> holds_card(cards, id) && id
        != cards[at].id by {
        if holds_card(cards, id) && id != cards[at].id {
            let i = choose|i: int| 0 <= i < cards.len() && (#[trigger] cards[i]).id == id;
            let k = if i < at { i } else { i - 1 };
            assert(new[k].id == id);
        }
        if holds_card(new, id) {
            let k = choose|k: int| 0 <= k < new.len() && (#[trigger] new[k]).id == id;
            let i = if k < at { k } else { k + 1 };
            assert(cards[i].id == id);
            if at < i {
                assert(cards[at].id != cards[i].id);
            } else {
                assert(cards[i].id != cards[at].id);
            }
        }
    }
    if strictly_newest_first(cards) {
        assert forall|i: int, k: int| 0 <= i < k < new.len() implies new[i].id > new[k].id by {
            let a = if i < at { i } else { i + 1 };
            let b = if k < at { k } else { k + 1 };
            assert(cards[a].id > cards[b].id);
        }
    }
}

/// Cards that have been put in order are the cards that were there.
pub proof fn lemma_held_after_sort(old: Seq<Card>, new: Seq<Card>)
    requires
        distinct_cards(old),
        newest_first(new),
        new.to_multiset() == old.to_multiset(),
    ensures
        strictly_newest_first(new),
        distinct_cards(new),
        forall|id: u64| holds_card(new, id) <==> holds_card(old, id),
{
    broadcast use vstd::seq_lib::to_multiset_contains;

    assert(old.no_duplicates()) by {
        assert forall|i: int, j: int| 0 <= i < old.len() && 0 <= j < old.len() && i
            != j implies old[i] != old[j] by {
            if i < j {
                assert(old[i].id != old[j].id);
            } else {
                assert(old[j].id != old[i].id);
            }
        }
    }
    old.lemma_multiset_has_no_duplicates();
    new.lemma_multiset_has_no_duplicates_conv();
    assert forall|i: int| 0 <= i < new.len() implies old.contains(#[trigger] new[i]) by {
        assert(new.contains(new[i]));
        assert(new.to_multiset().count(new[i]) > 0);
    }
    assert forall|i: int| 0 <= i < old.len() implies new.contains(#[trigger] old[i]) by {
        assert(old.contains(old[i]));
        assert(old.to_multiset().count(old[i]) > 0);
    }
    assert forall|i: int, k: int| 0 <= i < k < new.len() implies new[i].id > new[k].id by {
        assert(new[i].id >= new[k].id);
        if new[i].id == new[k].id {
            let a = choose|a: int| 0 <= a < old.len() && old[a] == new[i];
            let b = choose|b: int| 0 <= b < old.len() && old[b] == new[k];
            if a < b {
                assert(old[a].id != old[b].id);
            } else if b < a {
                assert(old[b].id != old[a].id);
            }
            assert(new[i] == new[k]);
        }
    }
    assert forall|id: u64| holds_card(new, id) <==> holds_card(old, id) by {
        if holds_card(new, id) {
            let i = choose|i: int| 0 <= i < new.len() && (#[trigger] new[i]).id == id;
            let a = choose|a: int| 0 <= a < old.len() && old[a] == new[i];
            assert(old[a].id == id);
        }
        if holds_card(old, id) {
            let a = choose|a: int| 0 <= a < old.len() && (#[trigger] old[a]).id == id;
            let i = choose|i: int| 0 <= i < new.len() && new[i] == old[a];
            assert(new[i].id == id);
        }
    }
}

/// Two places of a list of columns hold columns of different identity.
pub proof fn lemma_listed_columns_differ(
    t: Tables,
    board_id: u64,
    cols: Seq<ColumnRec>,
    a: int,
    b: int,
)
    requires
        t.ids_ordered(),
        t.is_column_listing(board_id, cols),
        0 <= a < cols.len(),
        0 <= b < cols.len(),
        a != b,
    ensures
        cols[a].id != cols[b].id,
{
    assert(t.columns.contains(cols[a]));
    assert(t.columns.contains(cols[b]));
    let x = choose|x: int| 0 <= x < t.columns.len() && t.columns[x] == cols[a];
    let y = choose|y: int| 0 <= y < t.columns.len() && t.columns[y] == cols[b];
    if a < b {
        assert(column_before(cols[a], cols[b]));
    } else {
        assert(column_before(cols[b], cols[a]));
    }
    if x < y {
        assert(t.columns[x].id < t.columns[y].id);
    } else if y < x {
        assert(t.columns[y].id < t.columns[x].id);
    }
}

/// The leftmost column of a board heads the list of its columns.
pub proof fn lemma_first_column_listed_first(t: Tables, board_id: u64, cols: Seq<ColumnRec>)
    requires
        t.ids_ordered(),
        t.has_any_column(board_id),
        t.is_column_listing(board_id, cols),
    ensures
        cols.len() > 0,
        cols[0] == t.columns[t.first_column(board_id)],
{
    t.lemma_first_column(board_id);
    let fc = t.first_column(board_id);
    assert(cols.contains(t.columns[fc]));
    let m = choose|m: int| 0 <= m < cols.len() && cols[m] == t.columns[fc];
    if m != 0 {
        assert(column_before(cols[0], cols[m]));
        assert(t.columns.contains(cols[0]));
        let x = choose|x: int| 0 <= x < t.columns.len() && t.columns[x] == cols[0];
        assert(t.columns[x].board_id == board_id);
        if x != fc {
            assert(column_before(t.columns[fc], t.columns[x]));
        }
    }
}

/// A list of the columns of a board names every column of the board, and
/// only columns of the board.
pub proof fn lemma_listed_column_exists(t: Tables, board_id: u64, cols: Seq<ColumnRec>, k: int)
    requires
        t.wf(),
        t.is_column_listing(board_id, cols),
        0 <= k < cols.len(),
    ensures
        t.has_column(board_id, cols[k].name),
        t.columns[t.column_index(board_id, cols[k].name)] == cols[k],
        t.has_board(board_id),
{
    assert(t.columns.contains(cols[k]));
    let x = choose|x: int| 0 <= x < t.columns.len() && t.columns[x] == cols[k];
    t.lemma_column_index(x);
    assert(t.has_board(t.columns[x].board_id));
}

/// Where a card is kept is the same once a card has been rewritten.
pub proof fn lemma_stored_after_update(
    t: Tables,
    changed: u64,
    title: Seq<char>,
    body: Seq<char>,
    column_id: u64,
    id: u64,
)
    requires
        t.wf(),
        t.has_card(changed),
    ensures
        stored_in(t.update_card(changed, title, body), column_id, id) == stored_in(
            t,
            column_id,
            id,
        ),
{
    let u = t.update_card(changed, title, body);
    if stored_in(t, column_id, id) {
        let j = choose|j: int|
            0 <= j < t.cards.len() && (#[trigger] t.cards[j]).id == id && t.cards[j].column_id
                == column_id;
        assert(u.cards[j].id == id && u.cards[j].column_id == column_id);
    }
    if stored_in(u, column_id, id) {
        let j = choose|j: int|
            0 <= j < u.cards.len() && (#[trigger] u.cards[j]).id == id && u.cards[j].column_id
                == column_id;
        assert(t.cards[j].id == id && t.cards[j].column_id == column_id);
    }
}

/// A board as the store hands it out shows what the store keeps, newest
/// first.
pub proof fn lemma_loaded_board_agrees(t: Tables, rec: BoardRec, board: Board)
    requires
        t.is_board_view(rec, board@),
    ensures
        board.id == rec.id,
        board_agrees(t, board),
        board_ordered(board),
{
    let views = column_views(board.columns@);
    let cols = choose|cols: Seq<ColumnRec>|
        t.is_column_listing(rec.id, cols) && #[trigger] t.shows_columns(cols, views);
    assert forall|k: int| 0 <= k < cols.len() implies (#[trigger] board.columns@[k]).name@
        == cols[k].name && column_agrees(t, cols[k].id, board.columns@[k].cards@)
        && strictly_newest_first(board.columns@[k].cards@) by {
        let cards = board.columns@[k].cards@;
        let shown = card_views(cards);
        assert(views[k] == board.columns@[k]@);
        assert(views[k].cards == shown);
        assert(t.is_card_listing(cols[k].id, shown));
        assert forall|i: int, j: int| 0 <= i < j < cards.len() implies cards[i].id
            > cards[j].id by {
            assert(shown[i].id > shown[j].id);
        }
        assert forall|id: u64| holds_card(cards, id) <==> stored_in(t, cols[k].id, id) by {
            if holds_card(cards, id) {
                let i = choose|i: int| 0 <= i < cards.len() && (#[trigger] cards[i]).id == id;
                assert(t.has_card_in(cols[k].id, shown[i]));
                let j = choose|j: int|
                    0 <= j < t.cards.len() && (#[trigger] t.cards[j]).column_id == cols[k].id
                        && card_view(t.cards[j]) == shown[i];
                assert(t.cards[j].id == id);
            }
            if stored_in(t, cols[k].id, id) {
                let j = choose|j: int|
                    0 <= j < t.cards.len() && (#[trigger] t.cards[j]).id == id
                        && t.cards[j].column_id == cols[k].id;
                assert(shown.contains(card_view(t.cards[j])));
                let i = choose|i: int| 0 <= i < shown.len() && shown[i] == card_view(t.cards[j]);
                assert(cards[i].id == id);
            }
        }
    }
    assert(columns_agree(t, cols, board));
    assert forall|k: int| 0 <= k < board.columns@.len() implies strictly_newest_first(
        (#[trigger] board.columns@[k]).cards@,
    ) by {
        assert(0 <= k < cols.len());
    }
}

/// A board whose cards have been put in order shows what it showed, newest
/// first.
pub proof fn lemma_sorted_board_agrees(t: Tables, old: Board, new: Board)
    requires
        board_agrees(t, old),
        crate::model::columns_sorted(old, new),
    ensures
        board_agrees(t, new),
        board_ordered(new),
{
    let cols = choose|cols: Seq<ColumnRec>|
        t.is_column_listing(old.id, cols) && #[trigger] columns_agree(t, cols, old);
    assert forall|k: int| 0 <= k < cols.len() implies (#[trigger] new.columns@[k]).name@
        == cols[k].name && column_agrees(t, cols[k].id, new.columns@[k].cards@)
        && strictly_newest_first(new.columns@[k].cards@) by {
        assert(column_agrees(t, cols[k].id, old.columns@[k].cards@));
        lemma_held_after_sort(old.columns@[k].cards@, new.columns@[k].cards@);
    }
    assert(columns_agree(t, cols, new));
    assert forall|k: int| 0 <= k < new.columns@.len() implies strictly_newest_first(
        (#[trigger] new.columns@[k]).cards@,
    ) by {
        assert(0 <= k < cols.len());
    }
}

/// A board from which a card has gone, in memory and in the store, shows
/// what the store keeps.
pub proof fn lemma_board_after_delete(t: Tables, old: Board, new: Board, at: int, i: int)
    requires
        t.wf(),
        board_agrees(t, old),
        0 <= at < old.columns@.len(),
        0 <= i < old.columns@[at].cards@.len(),
        crate::model::card_removed(old, new, at, i),
    ensures
        board_agrees(t.delete_card(old.columns@[at].cards@[i].id), new),
        board_ordered(old) ==> board_ordered(new),
{
    let gone = old.columns@[at].cards@[i].id;
    let u = t.delete_card(gone);
    let cols = choose|cols: Seq<ColumnRec>|
        t.is_column_listing(old.id, cols) && #[trigger] columns_agree(t, cols, old);
    assert(u.is_column_listing(new.id, cols));
    lemma_held_after_remove(old.columns@[at].cards@, i);
    assert(column_agrees(t, cols[at].id, old.columns@[at].cards@));
    assert(holds_card(old.columns@[at].cards@, gone));
    assert(stored_in(t, cols[at].id, gone));
    assert forall|k: int| 0 <= k < cols.len() implies (#[trigger] new.columns@[k]).name@
        == cols[k].name && column_agrees(u, cols[k].id, new.columns@[k].cards@) by {
        let was = old.columns@[k].cards@;
        let cards = new.columns@[k].cards@;
        assert(column_agrees(t, cols[k].id, was));
        assert forall|id: u64| holds_card(cards, id) <==> stored_in(u, cols[k].id, id) by {
            lemma_stored_after_delete(t, gone, cols[k].id, id);
            assert(holds_card(was, id) <==> stored_in(t, cols[k].id, id));
            if k != at {
                assert(cards == was);
                if id == gone && stored_in(t, cols[k].id, id) {
                    assert(stored_in(t, cols[at].id, gone));
                    lemma_listed_columns_differ(t, old.id, cols, k, at);
                    lemma_stored_once(t, cols[k].id, cols[at].id, id);
                }
            } else {
                assert(cards == was.remove(i));
                assert(holds_card(was.remove(i), id) <==> holds_card(was, id) && id != was[i].id);
            }
        }
    }
    assert(columns_agree(u, cols, new));
    if board_ordered(old) {
        assert forall|k: int| 0 <= k < new.columns@.len() implies strictly_newest_first(
            (#[trigger] new.columns@[k]).cards@,
        ) by {
            assert(strictly_newest_first(old.columns@[k].cards@));
        }
    }
}

/// A board to which a card has been added, on top of its first column and
/// in the store, shows what the store keeps.
pub proof fn lemma_board_after_insert(
    t: Tables,
    title: Seq<char>,
    body: Seq<char>,
    old: Board,
    new: Board,
)
    requires
        t.wf(),
        t.insert_card_error(old.id) is None,
        board_agrees(t, old),
        old.columns@.len() > 0,
        new.columns@.len() > 0,
        new.columns@[0].cards@.len() > 0,
        new.columns@[0].cards@[0].id == t.next_card_id,
        crate::model::card_prepended(old, new, 0, new.columns@[0].cards@[0]),
    ensures
        board_agrees(t.insert_card(old.id, title, body), new),
        board_ordered(old) ==> board_ordered(new),
{
    let u = t.insert_card(old.id, title, body);
    let card = new.columns@[0].cards@[0];
    let cols = choose|cols: Seq<ColumnRec>|
        t.is_column_listing(old.id, cols) && #[trigger] columns_agree(t, cols, old);
    assert(u.is_column_listing(new.id, cols));
    lemma_first_column_listed_first(t, old.id, cols);
    let first = old.columns@[0].cards@;
    assert(column_agrees(t, cols[0].id, first));
    lemma_stored_after_insert(t, old.id, title, body, cols[0].id, card.id);
    assert(!holds_card(first, card.id));
    lemma_held_after_insert(first, card);
    assert forall|k: int| 0 <= k < cols.len() implies (#[trigger] new.columns@[k]).name@
        == cols[k].name && column_agrees(u, cols[k].id, new.columns@[k].cards@) by {
        let was = old.columns@[k].cards@;
        let cards = new.columns@[k].cards@;
        assert(column_agrees(t, cols[k].id, was));
        assert forall|id: u64| holds_card(cards, id) <==> stored_in(u, cols[k].id, id) by {
            lemma_stored_after_insert(t, old.id, title, body, cols[k].id, id);
            assert(holds_card(was, id) <==> stored_in(t, cols[k].id, id));
            if k != 0 {
                assert(cards == was);
                lemma_listed_columns_differ(t, old.id, cols, k, 0);
            } else {
                assert(cards == first.insert(0, card));
                assert(holds_card(first.insert(0, card), id) <==> holds_card(first, id) || id
                    == card.id);
            }
        }
    }
    assert(columns_agree(u, cols, new));
    if board_ordered(old) {
        assert forall|k: int| 0 <= k < new.columns@.len() implies strictly_newest_first(
            (#[trigger] new.columns@[k]).cards@,
        ) by {
            let was = old.columns@[k].cards@;
            let cards = new.columns@[k].cards@;
            assert(strictly_newest_first(was));
            if k == 0 {
                assert forall|i: int, j: int| 0 <= i < j < cards.len() implies cards[i].id
                    > cards[j].id by {
                    assert(cards[j] == was[j - 1]);
                    if i == 0 {
                        assert(holds_card(was, was[j - 1].id));
                        assert(stored_in(t, cols[0].id, was[j - 1].id));
                        let w = choose|w: int|
                            0 <= w < t.cards.len() && (#[trigger] t.cards[w]).id == was[j - 1].id
                                && t.cards[w].column_id == cols[0].id;
                        assert(t.cards[w].id < t.next_card_id);
                    } else {
                        assert(cards[i] == was[i - 1]);
                        assert(was[i - 1].id > was[j - 1].id);
                    }
                }
            }
        }
    }
}

/// A board with columns in memory has a column in the store.
pub proof fn lemma_agreeing_board_has_columns(t: Tables, board: Board)
    requires
        t.wf(),
        board_agrees(t, board),
    ensures
        t.has_any_column(board.id) <==> board.columns@.len() > 0,
{
    let cols = choose|cols: Seq<ColumnRec>|
        t.is_column_listing(board.id, cols) && #[trigger] columns_agree(t, cols, board);
    if t.has_any_column(board.id) {
        lemma_first_column_listed_first(t, board.id, cols);
    }
    if board.columns@.len() > 0 {
        assert(t.columns.contains(cols[0]));
        let x = choose|x: int| 0 <= x < t.columns.len() && t.columns[x] == cols[0];
        assert(t.columns[x].board_id == board.id);
    }
}

/// A board of which a card has been rewritten, in memory and in the store,
/// shows what the store keeps.
pub proof fn lemma_board_after_edit(
    t: Tables,
    title: Seq<char>,
    body: Seq<char>,
    old: Board,
    new: Board,
    at: int,
    i: int,
)
    requires
        t.wf(),
        board_agrees(t, old),
        0 <= at < old.columns@.len(),
        0 <= i < old.columns@[at].cards@.len(),
        crate::model::same_but_cards(old, new, at, at),
        new.columns@[at].cards@.len() == old.columns@[at].cards@.len(),
        forall|k: int|
            0 <= k < old.columns@[at].cards@.len() && k != i ==> new.columns@[at].cards@[k]
                == old.columns@[at].cards@[k],
        new.columns@[at].cards@[i].id == old.columns@[at].cards@[i].id,
    ensures
        t.has_card(old.columns@[at].cards@[i].id),
        board_agrees(t.update_card(old.columns@[at].cards@[i].id, title, body), new),
        board_ordered(old) ==> board_ordered(new),
{
    let changed = old.columns@[at].cards@[i].id;
    let cols = choose|cols: Seq<ColumnRec>|
        t.is_column_listing(old.id, cols) && #[trigger] columns_agree(t, cols, old);
    assert(column_agrees(t, cols[at].id, old.columns@[at].cards@));
    assert(holds_card(old.columns@[at].cards@, changed));
    assert(stored_in(t, cols[at].id, changed));
    let w = choose|w: int|
        0 <= w < t.cards.len() && (#[trigger] t.cards[w]).id == changed && t.cards[w].column_id
            == cols[at].id;
    assert(t.cards[w].id == changed);
    let u = t.update_card(changed, title, body);
    assert(u.is_column_listing(new.id, cols));
    assert forall|k: int, n: int|
        0 <= k < cols.len() && 0 <= n < old.columns@[k].cards@.len() implies (
    #[trigger] new.columns@[k].cards@[n]).id == old.columns@[k].cards@[n].id by {}
    assert forall|k: int| 0 <= k < cols.len() implies (#[trigger] new.columns@[k]).name@
        == cols[k].name && column_agrees(u, cols[k].id, new.columns@[k].cards@) by {
        let was = old.columns@[k].cards@;
        let cards = new.columns@[k].cards@;
        assert(column_agrees(t, cols[k].id, was));
        assert(cards.len() == was.len());
        assert forall|a: int, b: int| 0 <= a < b < cards.len() implies cards[a].id
            != cards[b].id by {
            assert(cards[a].id == was[a].id);
            assert(cards[b].id == was[b].id);
        }
        assert forall|id: u64| holds_card(cards, id) <==> stored_in(u, cols[k].id, id) by {
            lemma_stored_after_update(t, changed, title, body, cols[k].id, id);
            assert(holds_card(was, id) <==> stored_in(t, cols[k].id, id));
            if holds_card(was, id) {
                let n = choose|n: int| 0 <= n < was.len() && (#[trigger] was[n]).id == id;
                assert(cards[n].id == id);
            }
            if holds_card(cards, id) {
                let n = choose|n: int| 0 <= n < cards.len() && (#[trigger] cards[n]).id == id;
                assert(was[n].id == id);
            }
        }
    }
    assert(columns_agree(u, cols, new));
    if board_ordered(old) {
        assert forall|k: int| 0 <= k < new.columns@.len() implies strictly_newest_first(
            (#[trigger] new.columns@[k]).cards@,
        ) by {
            let was = old.columns@[k].cards@;
            let cards = new.columns@[k].cards@;
            assert(strictly_newest_first(was));
            assert forall|a: int, b: int| 0 <= a < b < cards.len() implies cards[a].id
                > cards[b].id by {
                assert(cards[a].id == was[a].id);
                assert(cards[b].id == was[b].id);
            }
        }
    }
}

/// The store can move every card that an agreeing board shows into every
/// column that the board shows; and once the card has moved, in memory and
/// in the store, the board shows what the store keeps.
pub proof fn lemma_board_after_move(t: Tables, old: Board, new: Board, from: int, i: int, to: int)
    requires
        t.wf(),
        board_agrees(t, old),
        0 <= from < old.columns@.len(),
        0 <= to < old.columns@.len(),
        from != to,
        0 <= i < old.columns@[from].cards@.len(),
        crate::model::card_moved(old, new, from, i, to),
    ensures
        t.can_move_card(old.id, old.columns@[from].cards@[i].id, old.columns@[to].name@),
        t.clock < u64::MAX ==> board_agrees(
            t.move_card(old.id, old.columns@[from].cards@[i].id, old.columns@[to].name@),
            new,
        ),
{
    let card = old.columns@[from].cards@[i];
    let name = old.columns@[to].name@;
    let cols = choose|cols: Seq<ColumnRec>|
        t.is_column_listing(old.id, cols) && #[trigger] columns_agree(t, cols, old);
    let source = old.columns@[from].cards@;
    let target = old.columns@[to].cards@;
    assert(column_agrees(t, cols[from].id, source));
    assert(column_agrees(t, cols[to].id, target));
    assert(old.columns@[to].name@ == cols[to].name);
    assert(holds_card(source, card.id));
    assert(stored_in(t, cols[from].id, card.id));
    let w = choose|w: int|
        0 <= w < t.cards.len() && (#[trigger] t.cards[w]).id == card.id && t.cards[w].column_id
            == cols[from].id;
    t.lemma_card_index(w);
    lemma_listed_column_exists(t, old.id, cols, to);
    lemma_listed_column_exists(t, old.id, cols, from);
    assert(t.cards[w].board_id == old.id) by {
        assert(t.card_column_exists(t.cards[w]));
        let k = choose|k: int|
            0 <= k < t.columns.len() && #[trigger] t.columns[k].id == t.cards[w].column_id
                && t.columns[k].board_id == t.cards[w].board_id;
        let x = t.column_index(old.id, cols[from].name);
        assert(t.is_column_of(x, old.id, cols[from].name));
        if k < x {
            assert(t.columns[k].id < t.columns[x].id);
        } else if x < k {
            assert(t.columns[x].id < t.columns[k].id);
        }
    }
    assert(t.can_move_card(old.id, card.id, name));
    if t.clock < u64::MAX {
        let u = t.move_card(old.id, card.id, name);
        assert(u.is_column_listing(new.id, cols));
        lemma_listed_columns_differ(t, old.id, cols, from, to);
        lemma_held_after_remove(source, i);
        assert(!holds_card(target, card.id)) by {
            if holds_card(target, card.id) {
                assert(stored_in(t, cols[to].id, card.id));
                lemma_stored_once(t, cols[to].id, cols[from].id, card.id);
            }
        }
        lemma_held_after_insert(target, card);
        assert forall|k: int| 0 <= k < cols.len() implies (#[trigger] new.columns@[k]).name@
            == cols[k].name && column_agrees(u, cols[k].id, new.columns@[k].cards@) by {
            let was = old.columns@[k].cards@;
            let cards = new.columns@[k].cards@;
            assert(column_agrees(t, cols[k].id, was));
            assert forall|id: u64| holds_card(cards, id) <==> stored_in(u, cols[k].id, id) by {
                lemma_stored_after_move(t, old.id, card.id, name, cols[k].id, id);
                assert(holds_card(was, id) <==> stored_in(t, cols[k].id, id));
                if k == from {
                    assert(cards == source.remove(i));
                    assert(holds_card(source.remove(i), id) <==> holds_card(source, id) && id
                        != source[i].id);
                } else if k == to {
                    assert(cards == target.insert(0, card));
                    assert(holds_card(target.insert(0, card), id) <==> holds_card(target, id)
                        || id == card.id);
                } else {
                    assert(cards == was);
                    lemma_listed_columns_differ(t, old.id, cols, k, to);
                    if id == card.id && stored_in(t, cols[k].id, id) {
                        lemma_listed_columns_differ(t, old.id, cols, k, from);
                        lemma_stored_once(t, cols[k].id, cols[from].id, id);
                    }
                }
            }
        }
        assert(columns_agree(u, cols, new));
    }
}

/// A session as it starts agrees with its store.
pub proof fn law_new_session_agrees(model: Model)
    requires
        model.wf(),
        model.board is None <==> model.mode == Mode::ViewingBoards,
        model.mode == Mode::ViewingBoard || model.mode == Mode::ViewingBoards,
        model.board matches Some(board) ==> model.selected.board_id == board.id && exists|b: int|
            #[trigger] model.repo@.is_latest_board(b) && model.repo@.is_board_view(
                model.repo@.boards[b],
                board@,
            ),
    ensures
        coherent(model),
{
    if let Some(board) = model.board {
        let b = choose|b: int|
            #[trigger] model.repo@.is_latest_board(b) && model.repo@.is_board_view(
                model.repo@.boards[b],
                board@,
            );
        lemma_loaded_board_agrees(model.repo@, model.repo@.boards[b], board);
    }
}

/// Memory and store stay in step: a step takes a session that agrees with
/// its store to one that agrees with its store. Every card that the loaded
/// board shows in a column is kept in that column by the store, and the
/// other way round, whatever is created, edited, moved or deleted.
pub proof fn law_step_keeps_agreement(
    pre: Model,
    msg: Message,
    reply: Option<Result<String, Error>>,
    post: Model,
    out: Result<Action, Error>,
)
    requires
        coherent(pre),
        pre.mode.spec_accepts(&msg),
        stepped(pre, msg, reply, post, out),
        post.wf(),
    ensures
        coherent(post),
{
    let t = pre.repo@;
    match msg {
        Message::ViewBoardMode => {
            if pre.mode == Mode::MovingCard {
                if let Some(board) = pre.board {
                    lemma_sorted_board_agrees(t, board, post.board->0);
                }
            } else if pre.mode == Mode::ViewingBoards {
                if pre.spec_selected_meta() is Some && out is Ok {
                    let id = pre.selected.board_id;
                    let b = t.board_index(id);
                    assert(t.boards[b].id == id);
                    lemma_loaded_board_agrees(post.repo@, t.board(id), post.board->0);
                }
            }
        },
        Message::MoveCardLeft | Message::MoveCardRight => {
            let left = msg == Message::MoveCardLeft;
            if let Some(to) = pre.move_target(left) {
                if out is Ok {
                    let from = pre.selected.column_index as int;
                    let i = pre.selected.card_index->0 as int;
                    lemma_board_after_move(t, pre.board->0, post.board->0, from, i, to);
                }
            }
        },
        Message::ConfirmChoice => {
            if pre.confirmation_state == ConfirmationState::Yes {
                if let Some(card) = pre.spec_selected_card() {
                    let at = pre.selected.column_index as int;
                    let i = pre.selected.card_index->0 as int;
                    lemma_board_after_delete(t, pre.board->0, post.board->0, at, i);
                }
            }
        },
        Message::NewCard => {
            if let Some(Ok(text)) = reply {
                if has_heading(text@) && t.insert_card_error(pre.selected.board_id) is None {
                    if let Some(board) = pre.board {
                        lemma_agreeing_board_has_columns(t, board);
                        lemma_board_after_insert(
                            t,
                            heading_text(text@),
                            text_after_heading(text@),
                            board,
                            post.board->0,
                        );
                    }
                }
            }
        },
        Message::EditCard => {
            if let Some(card) = pre.spec_selected_card() {
                if let Some(Ok(text)) = reply {
                    if has_heading(text@) && t.update_card_error(card.id) is None {
                        let at = pre.selected.column_index as int;
                        let i = pre.selected.card_index->0 as int;
                        lemma_board_after_edit(
                            t,
                            heading_text(text@),
                            text_after_heading(text@),
                            pre.board->0,
                            post.board->0,
                            at,
                            i,
                        );
                    }
                }
            }
        },
        _ => {},
    }
}

} // verus!
