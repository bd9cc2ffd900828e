//! What holds of the library as a whole, beyond what each function states
//! of itself.

use vstd::prelude::*;
use crate::board::{BoardMetaView, CardView, meta_views};
use crate::error::{Error, ErrorKind};
use crate::mode::{Action, ConfirmationState, Event, Message, Mode, event_message};
use crate::model::Model;
use crate::tables::{ColumnRec, Tables, card_view, column_before, column_names};
use crate::text::{
    board_text,
    card_text,
    column_lines,
    lemma_line_end,
    line_end,
    board_columns,
    body_start,
    column_entries,
    has_heading,
    heading_at,
    heading_text,
    lemma_heading_unique,
    rule,
    text_after_heading,
};
use crate::update::stepped;

verus! {

/// The entries of `s` stand strictly in the order `before`.
pub open spec fn strictly_ordered<A>(s: Seq<A>, before: spec_fn(A, A) -> bool) -> bool {
    forall|i: int, j: int| 0 <= i < j < s.len() ==> before(s[i], s[j])
}

/// Two rows that stand strictly in the same order and hold the same entries
/// are the same row, if the order never puts two entries before one
/// another.
pub proof fn lemma_ordered_rows_equal<A>(a: Seq<A>, b: Seq<A>, before: spec_fn(A, A) -> bool)
    requires
        forall|x: A, y: A| #[trigger] before(x, y) ==> !before(y, x),
        strictly_ordered(a, before),
        strictly_ordered(b, before),
        forall|i: int| 0 <= i < a.len() ==> b.contains(#[trigger] a[i]),
        forall|i: int| 0 <= i < b.len() ==> a.contains(#[trigger] b[i]),
    ensures
        a == b,
    decreases a.len(),
{
    if a.len() == 0 {
        if b.len() > 0 {
            assert(a.contains(b[0]));
        }
        assert(a =~= b);
    } else {
        let x = a.last();
        assert(b.contains(a[a.len() - 1]));
        let j = choose|j: int| 0 <= j < b.len() && b[j] == x;
        let y = b.last();
        assert(a.contains(b[b.len() - 1]));
        let k = choose|k: int| 0 <= k < a.len() && a[k] == y;
        if j != b.len() - 1 {
            assert(before(b[j], b[b.len() - 1]));
            if k != a.len() - 1 {
                assert(before(a[k], a[a.len() - 1]));
            }
        }
        assert(x == y);
        let a0 = a.drop_last();
        let b0 = b.drop_last();
        assert forall|i: int| 0 <= i < a0.len() implies b0.contains(#[trigger] a0[i]) by {
            assert(b.contains(a[i]));
            let w = choose|w: int| 0 <= w < b.len() && b[w] == a[i];
            if w == b.len() - 1 {
                assert(before(a[i], a[a.len() - 1]));
            }
            assert(b0[w] == a0[i]);
        }
        assert forall|i: int| 0 <= i < b0.len() implies a0.contains(#[trigger] b0[i]) by {
            assert(a.contains(b[i]));
            let w = choose|w: int| 0 <= w < a.len() && a[w] == b[i];
            if w == a.len() - 1 {
                assert(before(b[i], b[b.len() - 1]));
            }
            assert(a0[w] == b0[i]);
        }
        assert(strictly_ordered(a0, before)) by {
            assert forall|i: int, j: int| 0 <= i < j < a0.len() implies before(a0[i], a0[j]) by {
                assert(before(a[i], a[j]));
            }
        }
        assert(strictly_ordered(b0, before)) by {
            assert forall|i: int, j: int| 0 <= i < j < b0.len() implies before(b0[i], b0[j]) by {
                assert(before(b[i], b[j]));
            }
        }
        lemma_ordered_rows_equal(a0, b0, before);
        assert(a =~= a0.push(x));
        assert(b =~= b0.push(y));
    }
}

/// The columns of a board can be listed from left to right in one way only.
pub proof fn law_column_listing_unique(
    t: Tables,
    board_id: u64,
    a: Seq<ColumnRec>,
    b: Seq<ColumnRec>,
)
    requires
        t.is_column_listing(board_id, a),
        t.is_column_listing(board_id, b),
    ensures
        a == b,
{
    assert forall|i: int| 0 <= i < a.len() implies b.contains(#[trigger] a[i]) by {
        assert(t.columns.contains(a[i]));
        let k = choose|k: int| 0 <= k < t.columns.len() && t.columns[k] == a[i];
        assert(t.columns[k].board_id == board_id);
    }
    assert forall|i: int| 0 <= i < b.len() implies a.contains(#[trigger] b[i]) by {
        assert(t.columns.contains(b[i]));
        let k = choose|k: int| 0 <= k < t.columns.len() && t.columns[k] == b[i];
        assert(t.columns[k].board_id == board_id);
    }
    let before = |x: ColumnRec, y: ColumnRec| column_before(x, y);
    assert(strictly_ordered(a, before)) by {
        assert forall|i: int, j: int| 0 <= i < j < a.len() implies before(a[i], a[j]) by {
            assert(column_before(a[i], a[j]));
        }
    }
    assert(strictly_ordered(b, before)) by {
        assert forall|i: int, j: int| 0 <= i < j < b.len() implies before(b[i], b[j]) by {
            assert(column_before(b[i], b[j]));
        }
    }
    lemma_ordered_rows_equal(a, b, before);
}

/// The cards of a column can be listed newest first in one way only.
pub proof fn law_card_listing_unique(t: Tables, column_id: u64, a: Seq<CardView>, b: Seq<CardView>)
    requires
        t.is_card_listing(column_id, a),
        t.is_card_listing(column_id, b),
    ensures
        a == b,
{
    let before = |x: CardView, y: CardView| x.id > y.id;
    assert forall|i: int| 0 <= i < a.len() implies b.contains(#[trigger] a[i]) by {
        assert(t.has_card_in(column_id, a[i]));
        let j = choose|j: int|
            0 <= j < t.cards.len() && (#[trigger] t.cards[j]).column_id == column_id && card_view(
                t.cards[j],
            ) == a[i];
        assert(b.contains(card_view(t.cards[j])));
    }
    assert forall|i: int| 0 <= i < b.len() implies a.contains(#[trigger] b[i]) by {
        assert(t.has_card_in(column_id, b[i]));
        let j = choose|j: int|
            0 <= j < t.cards.len() && (#[trigger] t.cards[j]).column_id == column_id && card_view(
                t.cards[j],
            ) == b[i];
        assert(a.contains(card_view(t.cards[j])));
    }
    assert(strictly_ordered(a, before)) by {
        assert forall|i: int, j: int| 0 <= i < j < a.len() implies before(a[i], a[j]) by {
            assert(a[i].id > a[j].id);
        }
    }
    assert(strictly_ordered(b, before)) by {
        assert forall|i: int, j: int| 0 <= i < j < b.len() implies before(b[i], b[j]) by {
            assert(b[i].id > b[j].id);
        }
    }
    lemma_ordered_rows_equal(a, b, before);
}

/// A board is summed up in one way only.
pub proof fn lemma_meta_unique(t: Tables, i: int, j: int, a: BoardMetaView, b: BoardMetaView)
    requires
        t.ids_ordered(),
        0 <= i < t.boards.len(),
        0 <= j < t.boards.len(),
        t.is_meta(t.boards[i], a),
        t.is_meta(t.boards[j], b),
        a.id == b.id,
    ensures
        a == b,
{
    t.lemma_board_index(i);
    t.lemma_board_index(j);
    assert(i == j);
    let ca = choose|cols: Seq<ColumnRec>|
        t.is_column_listing(a.id, cols) && #[trigger] column_names(cols) == a.columns;
    let cb = choose|cols: Seq<ColumnRec>|
        t.is_column_listing(b.id, cols) && #[trigger] column_names(cols) == b.columns;
    law_column_listing_unique(t, a.id, ca, cb);
}

/// The boards can be listed, last viewed first, in one way only.
pub proof fn law_board_listing_unique(t: Tables, a: Seq<BoardMetaView>, b: Seq<BoardMetaView>)
    requires
        t.ids_ordered(),
        t.is_board_listing(a),
        t.is_board_listing(b),
    ensures
        a == b,
{
    let before = |x: BoardMetaView, y: BoardMetaView| crate::tables::meta_before(x, y);
    lemma_listed_in_both(t, a, b);
    lemma_listed_in_both(t, b, a);
    assert(strictly_ordered(a, before)) by {
        assert forall|i: int, j: int| 0 <= i < j < a.len() implies before(a[i], a[j]) by {
            assert(crate::tables::meta_before(a[i], a[j]));
        }
    }
    assert(strictly_ordered(b, before)) by {
        assert forall|i: int, j: int| 0 <= i < j < b.len() implies before(b[i], b[j]) by {
            assert(crate::tables::meta_before(b[i], b[j]));
        }
    }
    lemma_ordered_rows_equal(a, b, before);
}

/// Every list of the boards holds the summary of each board that has a
/// column.
pub proof fn lemma_listed_entry(t: Tables, x: int, m: BoardMetaView, b: Seq<BoardMetaView>)
    requires
        t.ids_ordered(),
        0 <= x < t.boards.len(),
        t.has_any_column(t.boards[x].id),
        t.is_meta(t.boards[x], m),
        t.is_board_listing(b),
    ensures
        b.contains(m),
{
    let k = choose|k: int| 0 <= k < b.len() && (#[trigger] b[k]).id == t.boards[x].id;
    assert(0 <= k < b.len() && b[k].id == t.boards[x].id);
    assert(t.has_meta(b[k]));
    let y = t.lemma_meta_board(b[k]);
    lemma_meta_unique(t, x, y, m, b[k]);
}

/// What one list of the boards holds, every other list holds too.
pub proof fn lemma_listed_in_both(t: Tables, a: Seq<BoardMetaView>, b: Seq<BoardMetaView>)
    requires
        t.ids_ordered(),
        t.is_board_listing(a),
        t.is_board_listing(b),
    ensures
        forall|i: int| 0 <= i < a.len() ==> b.contains(#[trigger] a[i]),
{
    assert forall|i: int| 0 <= i < a.len() implies b.contains(#[trigger] a[i]) by {
        assert(t.has_meta(a[i]));
        let x = t.lemma_meta_board(a[i]);
        lemma_listed_entry(t, x, a[i], b);
    }
}

/// A board without columns is refused as invalid, and the store stays as
/// it is.
pub proof fn law_board_needs_a_column(t: Tables, name: Seq<char>)
    ensures
        t.create_board_error(name, Seq::empty()) == Some(Error::NoColumns),
        Error::NoColumns.spec_kind() == ErrorKind::ValidationFailure,
        t.create_board_result(name, Seq::empty()) == t,
{
}

/// Once a board has been created, its columns are those that were given,
/// in the order in which they were given.
pub proof fn lemma_created_columns(t: Tables, name: Seq<char>, names: Seq<Seq<char>>)
    requires
        t.wf(),
        t.create_board_error(name, names) is None,
    ensures
        t.create_board(name, names).is_column_listing(
            t.next_board_id,
            t.new_columns(t.next_board_id, names),
        ),
        t.create_board(name, names).has_any_column(t.next_board_id),
        column_names(t.new_columns(t.next_board_id, names)) == names,
{
    let u = t.create_board(name, names);
    let first = t.columns.len() as int;
    let fresh = t.new_columns(t.next_board_id, names);
    assert(u.columns == t.columns + fresh);
    assert(names.len() > 0);
    assert(u.columns[first] == fresh[0]);
    assert(u.columns[first].board_id == t.next_board_id);
    assert forall|a: int| 0 <= a < fresh.len() implies u.columns.contains(#[trigger] fresh[a])
        && fresh[a].board_id == t.next_board_id by {
        assert(u.columns[first + a] == fresh[a]);
    }
    assert forall|k: int|
        0 <= k < u.columns.len() && (#[trigger] u.columns[k]).board_id
            == t.next_board_id implies fresh.contains(u.columns[k]) by {
        if k < first {
            assert(u.columns[k] == t.columns[k]);
            assert(t.has_board(t.columns[k].board_id));
            let w = t.board_index(t.columns[k].board_id);
            assert(t.boards[w].id < t.next_board_id);
        } else {
            assert(fresh[k - first] == u.columns[k]);
        }
    }
    assert(column_names(fresh) =~= names);
}

/// A board that carries a later stamp than every other board heads every
/// list of summaries, if it has a column.
pub proof fn lemma_latest_board_is_listed_first(t: Tables, n: int, metas: Seq<BoardMetaView>)
    requires
        t.ids_ordered(),
        0 <= n < t.boards.len(),
        t.has_any_column(t.boards[n].id),
        forall|b: int|
            0 <= b < t.boards.len() && b != n ==> (#[trigger] t.boards[b]).viewed_at
                < t.boards[n].viewed_at,
        t.is_board_listing(metas),
    ensures
        metas.len() > 0,
        t.is_meta(t.boards[n], metas[0]),
{
    let i = choose|i: int| 0 <= i < metas.len() && (#[trigger] metas[i]).id == t.boards[n].id;
    assert(t.has_meta(metas[i]));
    let bi = t.lemma_meta_board(metas[i]);
    t.lemma_board_index(bi);
    t.lemma_board_index(n);
    assert(bi == n);
    if i != 0 {
        assert(t.has_meta(metas[0]));
        let b0 = t.lemma_meta_board(metas[0]);
        assert(crate::tables::meta_before(metas[0], metas[i]));
        assert(metas[0].viewed_at == t.boards[b0].viewed_at);
        assert(metas[i].viewed_at == t.boards[n].viewed_at);
        if b0 != n {
            assert(t.boards[b0].viewed_at < t.boards[n].viewed_at);
        }
    }
}

/// A board that has just been created heads every list of summaries, under
/// its name and with its columns in the order in which they were given.
pub proof fn law_created_board_is_listed_first(
    t: Tables,
    name: Seq<char>,
    names: Seq<Seq<char>>,
    metas: Seq<BoardMetaView>,
)
    requires
        t.wf(),
        t.create_board_error(name, names) is None,
        t.create_board(name, names).is_board_listing(metas),
    ensures
        metas.len() > 0,
        metas[0].id == t.next_board_id,
        metas[0].name == name,
        metas[0].columns == names,
{
    let u = t.create_board(name, names);
    t.lemma_create_board(name, names);
    lemma_created_columns(t, name, names);
    let n = t.boards.len() as int;
    assert(u.boards[n] == t.new_board(name));
    assert forall|b: int| 0 <= b < u.boards.len() && b != n implies (#[trigger] u.boards[b]).viewed_at
        < u.boards[n].viewed_at by {
        assert(u.boards[b] == t.boards[b]);
        assert(t.boards[b].viewed_at <= t.clock);
    }
    lemma_latest_board_is_listed_first(u, n, metas);
    let cols = choose|cols: Seq<ColumnRec>|
        u.is_column_listing(t.next_board_id, cols) && #[trigger] column_names(cols)
            == metas[0].columns;
    law_column_listing_unique(u, t.next_board_id, cols, t.new_columns(t.next_board_id, names));
}

/// A new card receives an identity above those of all cards, and within its
/// board the next number: above the numbers of the board's cards, and at
/// least 1. The counters of the other boards stay as they are.
pub proof fn law_card_identities_rise(
    t: Tables,
    board_id: u64,
    title: Seq<char>,
    body: Seq<char>,
)
    requires
        t.wf(),
        t.insert_card_error(board_id) is None,
    ensures
        ({
            let card = t.new_card(board_id, title, body);
            let u = t.insert_card(board_id, title, body);
            &&& forall|i: int| 0 <= i < t.cards.len() ==> (#[trigger] t.cards[i]).id < card.id
            &&& forall|i: int|
                0 <= i < t.cards.len() && (#[trigger] t.cards[i]).board_id == board_id
                    ==> t.cards[i].number < card.number
            &&& card.number >= 1
            &&& card.number == t.board(board_id).next_number
            &&& u.has_board(board_id)
            &&& u.board(board_id).next_number == card.number + 1
            &&& forall|b: int|
                0 <= b < t.boards.len() && (#[trigger] t.boards[b]).id != board_id ==> u.boards[b]
                    == t.boards[b]
        }),
{
    let u = t.insert_card(board_id, title, body);
    let b = t.board_index(board_id);
    t.lemma_insert_card(board_id, title, body);
    t.lemma_board_index(b);
    assert(u.boards[b].id == board_id);
    u.lemma_board_index(b);
    assert forall|c: int|
        0 <= c < t.boards.len() && (#[trigger] t.boards[c]).id != board_id implies u.boards[c]
        == t.boards[c] by {
        t.lemma_board_index(c);
    }
}

/// The first card of a board that has just been created is number 1.
pub proof fn law_numbers_start_at_one(
    t: Tables,
    name: Seq<char>,
    names: Seq<Seq<char>>,
    title: Seq<char>,
    body: Seq<char>,
)
    requires
        t.wf(),
        t.create_board_error(name, names) is None,
    ensures
        t.create_board(name, names).has_board(t.next_board_id),
        t.create_board(name, names).new_card(t.next_board_id, title, body).number == 1,
{
    let u = t.create_board(name, names);
    let n = t.boards.len() as int;
    t.lemma_create_board(name, names);
    assert(u.boards[n] == t.new_board(name));
    u.lemma_board_index(n);
}

/// A deleted card is in the store no longer, and the other cards stay.
pub proof fn law_deleted_card_is_gone(t: Tables, id: u64)
    requires
        t.wf(),
    ensures
        !t.delete_card(id).has_card(id),
        forall|other: u64| other != id ==> (t.delete_card(id).has_card(other) <==> t.has_card(other)),
{
    let u = t.delete_card(id);
    if t.has_card(id) {
        let i = t.card_index(id);
        t.lemma_card_index(i);
        assert forall|j: int| 0 <= j < u.cards.len() implies (#[trigger] u.cards[j]).id != id by {
            let w = if j < i { j } else { j + 1 };
            assert(u.cards[j] == t.cards[w]);
            t.lemma_card_index(w);
        }
        assert forall|other: u64| other != id implies (u.has_card(other) <==> t.has_card(
            other,
        )) by {
            if t.has_card(other) {
                let w = t.card_index(other);
                let j = if w < i { w } else { w - 1 };
                assert(u.cards[j] == t.cards[w]);
            }
            if u.has_card(other) {
                let j = u.card_index(other);
                let w = if j < i { j } else { j + 1 };
                assert(u.cards[j] == t.cards[w]);
            }
        }
    }
}

/// A board that has just been viewed heads every list of summaries, if it
/// has a column.
pub proof fn law_viewed_board_is_listed_first(t: Tables, id: u64, metas: Seq<BoardMetaView>)
    requires
        t.wf(),
        t.view_board_error(id) is None,
        t.has_any_column(id),
        t.view_board(id).is_board_listing(metas),
    ensures
        metas.len() > 0,
        metas[0].id == id,
{
    let u = t.view_board(id);
    let n = t.board_index(id);
    t.lemma_view_board(id);
    assert(u.boards[n].id == id);
    assert forall|b: int| 0 <= b < u.boards.len() && b != n implies (#[trigger] u.boards[b]).viewed_at
        < u.boards[n].viewed_at by {
        assert(u.boards[b] == t.boards[b]);
        assert(t.boards[b].viewed_at <= t.clock);
    }
    assert(u.has_any_column(id)) by {
        let k = choose|k: int|
            0 <= k < t.columns.len() && #[trigger] t.columns[k].board_id == id;
        assert(u.columns[k].board_id == id);
    }
    lemma_latest_board_is_listed_first(u, n, metas);
}

/// A move of the selected card past the first or the last column changes
/// nothing: not the columns, not the selection, not the store.
pub proof fn law_no_move_past_the_edge(pre: Model, left: bool, post: Model, r: Result<(), Error>)
    requires
        pre.relocated(left, post, r),
        if left {
            pre.selected.column_index == 0
        } else {
            pre.selected.column_index + 1 >= pre.column_count()
        },
    ensures
        r is Ok,
        post == pre,
{
}

/// Two answers switched twice are the answer that was there.
pub proof fn law_toggle_twice(state: ConfirmationState)
    ensures
        state.toggled().toggled() == state,
        state.toggled() != state,
{
}

/// In the deletion dialog, two steps to the left or to the right, in any
/// mix, leave the session as it was.
pub proof fn law_dialog_toggles_back(
    pre: Model,
    first_left: bool,
    second_left: bool,
    mid: Model,
    post: Model,
    out1: Result<Action, Error>,
    out2: Result<Action, Error>,
)
    requires
        pre.mode == Mode::ConfirmCardDeletion,
        stepped(
            pre,
            if first_left {
                Message::NavigateLeft
            } else {
                Message::NavigateRight
            },
            None,
            mid,
            out1,
        ),
        stepped(
            mid,
            if second_left {
                Message::NavigateLeft
            } else {
                Message::NavigateRight
            },
            None,
            post,
            out2,
        ),
    ensures
        post == pre,
{
}

/// Confirming "No" leaves the cards, the selection and the store untouched;
/// confirming "Yes" with a card selected takes that card from its column
/// and from the store. Either way the board is shown again.
pub proof fn law_confirmation_decides(pre: Model, post: Model, out: Result<Action, Error>)
    requires
        pre.wf(),
        stepped(pre, Message::ConfirmChoice, None, post, out),
    ensures
        out is Ok,
        post.mode == Mode::ViewingBoard,
        pre.confirmation_state == ConfirmationState::No ==> post.board == pre.board
            && post.selected == pre.selected && post.repo == pre.repo,
        pre.confirmation_state == ConfirmationState::Yes ==> match pre.spec_selected_card() {
            Some(card) => {
                let at = pre.selected.column_index as int;
                let i = pre.selected.card_index->0 as int;
                &&& post.cards_at(at) == pre.cards_at(at).remove(i)
                &&& !post.repo@.has_card(card.id)
            },
            None => post.board == pre.board && post.repo == pre.repo,
        },
{
    if pre.confirmation_state == ConfirmationState::Yes {
        if let Some(card) = pre.spec_selected_card() {
            law_deleted_card_is_gone(pre.repo@, card.id);
        }
    }
}

/// Once the only card of a column has been deleted, the column is empty and
/// no card is selected.
pub proof fn law_last_card_deleted(pre: Model, post: Model)
    requires
        pre.card_deleted(post),
        pre.spec_selected_card() is Some,
        pre.cards_at(pre.selected.column_index as int).len() == 1,
    ensures
        post.cards_at(pre.selected.column_index as int).len() == 0,
        post.selected.card_index is None,
        post.selected.column_index == pre.selected.column_index,
{
}

/// The selection never points past what exists: a step takes a session
/// whose selection is valid to one whose selection is valid.
pub proof fn law_selection_stays_valid(
    pre: Model,
    msg: Message,
    reply: Option<Result<String, Error>>,
    post: Model,
    out: Result<Action, Error>,
)
    requires
        pre.cursor_ok(),
        stepped(pre, msg, reply, post, out),
    ensures
        post.cursor_ok(),
{
    match msg {
        Message::ViewBoardMode => {
            if pre.mode == Mode::MovingCard {
                if pre.board is Some && pre.board->0.columns@.len() > 0 {
                    // the cards that were put in order are as many as before
                    let at = pre.selected.column_index as int;
                    assert(post.board->0.columns@[at].cards@.to_multiset()
                        == pre.board->0.columns@[at].cards@.to_multiset());
                    vstd::seq_lib::to_multiset_len(post.cards_at(at));
                    vstd::seq_lib::to_multiset_len(pre.cards_at(at));
                }
            }
        },
        Message::NavigateRight | Message::MoveCardRight => {
            // a board holds no more columns than can be counted
            if pre.board is Some {
                assert(pre.board->0.columns.len() == pre.board->0.columns@.len());
            }
        },
        _ => {},
    }
}

/// A failed step shows nothing new: the loaded board, the list of
/// summaries, the selection and the mode are as before, and so is the store.
pub proof fn law_failure_changes_nothing(
    pre: Model,
    msg: Message,
    reply: Option<Result<String, Error>>,
    post: Model,
    out: Result<Action, Error>,
)
    requires
        stepped(pre, msg, reply, post, out),
        out is Err,
    ensures
        post == (Model { repo: post.repo, ..pre }),
        post.repo@ == pre.repo@,
{
}

/// The session refuses a board without columns as invalid; the list of
/// summaries and the store stay as they are.
pub proof fn law_empty_board_is_refused(
    pre: Model,
    name: Seq<char>,
    post: Model,
    r: Result<(), Error>,
)
    requires
        pre.board_created(name, Seq::empty(), post, r),
    ensures
        r == Err::<(), Error>(Error::NoColumns),
        Error::NoColumns.spec_kind() == ErrorKind::ValidationFailure,
        post.board_metas == pre.board_metas,
        post.repo@ == pre.repo@,
{
}

/// Once a new board has been created in the picker, it is the selected
/// board, at the head of the list.
pub proof fn law_new_board_is_selected(
    pre: Model,
    reply: Result<String, Error>,
    post: Model,
    out: Result<Action, Error>,
)
    requires
        pre.wf(),
        stepped(pre, Message::NewBoard, Some(reply), post, out),
        out is Ok,
    ensures
        reply is Ok,
        post.board_metas@.len() > 0,
        post.selected.board_index == Some(0usize),
        post.selected.board_id == pre.repo@.next_board_id,
        post.board_metas@[0]@.name == heading_text(reply->Ok_0@),
        post.board_metas@[0]@.columns == board_columns(reply->Ok_0@),
{
    let text = reply->Ok_0@;
    let metas = meta_views(post.board_metas@);
    law_created_board_is_listed_first(
        pre.repo@,
        heading_text(text),
        board_columns(text),
        metas,
    );
    assert(metas[0] == post.board_metas@[0]@);
}

/// Placing the columns of a board anew removes no column and no card: every
/// column keeps its identity, board and name, and the cards are as before.
pub proof fn law_reorder_keeps_columns(
    t: Tables,
    board_id: u64,
    name: Seq<char>,
    names: Seq<Seq<char>>,
)
    requires
        t.wf(),
        t.reorder_error(board_id, name, names.len()) is None,
    ensures
        ({
            let u = t.reorder(board_id, name, names);
            &&& u.cards == t.cards
            &&& u.columns.len() >= t.columns.len()
            &&& forall|k: int|
                0 <= k < t.columns.len() ==> (#[trigger] u.columns[k]).id == t.columns[k].id
                    && u.columns[k].board_id == t.columns[k].board_id && u.columns[k].name
                    == t.columns[k].name
        }),
{
    t.lemma_place_columns(board_id, names, names.len() as int);
    t.lemma_rearrange(board_id, name, names);
}

/// The text that presents a card reads back as that card: the title is
/// found as the heading and the body as what follows, for every title that
/// is not empty and holds neither `=` nor a line break.
pub proof fn law_card_text_reads_back(title: Seq<char>, body: Seq<char>)
    requires
        title.len() > 0,
        forall|k: int| 0 <= k < title.len() ==> title[k] != '=' && title[k] != '\n',
    ensures
        has_heading(card_text(title, body)),
        heading_text(card_text(title, body)) == title,
        text_after_heading(card_text(title, body)) == body,
{
    let s = card_text(title, body);
    let e = title.len() as int;
    let f = e + 11;
    assert(rule().len() == 13);
    assert forall|k: int| 0 <= k < e implies s[k] == title[k] by {}
    assert forall|k: int| e <= k < e + 13 implies s[k] == rule()[k - e] by {}
    assert(heading_at(s, e, f));
    lemma_heading_unique(s, e, f);
    assert(s.subrange(0, e) =~= title);
    assert(s.subrange(f + 2, s.len() as int) =~= body);
}

/// Clearing the error twice is the same as clearing it once.
pub proof fn law_clearing_errors_is_idempotent(
    pre: Model,
    mid: Model,
    post: Model,
    out1: Result<Action, Error>,
    out2: Result<Action, Error>,
)
    requires
        stepped(pre, Message::SetError(None), None, mid, out1),
        stepped(mid, Message::SetError(None), None, post, out2),
    ensures
        mid.error is None,
        post == mid,
        out1 == Ok::<Action, Error>(Action::Nothing),
        out2 == Ok::<Action, Error>(Action::Nothing),
{
}

/// A store without rows is consistent.
pub proof fn law_empty_store_is_consistent()
    ensures
        Tables::empty().wf(),
{
}

/// Every message that an event gives rise to means something in the mode
/// it arose in: no key and no signal leads to a message that the mode does
/// not take.
pub proof fn law_event_message_accepted(mode: Mode, event: Event)
    ensures
        event_message(mode, event) matches Some(msg) ==> mode.spec_accepts(&msg),
{
}

/// A line that is a `- ` and the name `c` is found as an entry, and the
/// search goes on with the next line.
pub proof fn lemma_entry_at(s: Seq<char>, p: int, c: Seq<char>)
    requires
        0 <= p,
        p + 2 + c.len() < s.len(),
        c.len() > 0,
        forall|k: int| 0 <= k < c.len() ==> c[k] != '\n',
        s[p] == '-',
        s[p + 1] == ' ',
        s.subrange(p + 2, p + 2 + c.len()) == c,
        s[p + 2 + c.len()] == '\n',
    ensures
        column_entries(s, p) == seq![c] + column_entries(s, p + 3 + c.len()),
{
    let e = p + 2 + c.len();
    lemma_line_end(s, p);
    assert forall|k: int| p + 2 <= k < e implies s[k] != '\n' by {
        assert(s[k] == c[k - (p + 2)]);
    }
    let r = line_end(s, p);
    if r < e {
        assert(s[r] == '\n');
    }
    assert(r == e);
}

/// The lines of the columns start with the line of the first column.
pub proof fn lemma_column_lines_front(columns: Seq<Seq<char>>)
    requires
        columns.len() > 0,
    ensures
        column_lines(columns) == seq!['-', ' '] + columns[0] + seq!['\n'] + column_lines(
            columns.drop_first(),
        ),
    decreases columns.len(),
{
    if columns.len() == 1 {
        assert(columns.drop_last() =~= Seq::<Seq<char>>::empty());
        assert(columns.drop_first() =~= Seq::<Seq<char>>::empty());
        assert(column_lines(columns) =~= seq!['-', ' '] + columns[0] + seq!['\n'] + column_lines(
            columns.drop_first(),
        ));
    } else {
        let front = columns.drop_last();
        lemma_column_lines_front(front);
        assert(front[0] == columns[0]);
        assert(front.drop_first() =~= columns.drop_first().drop_last());
        assert(columns.drop_first().last() == columns.last());
        assert(column_lines(columns) =~= seq!['-', ' '] + columns[0] + seq!['\n'] + column_lines(
            columns.drop_first(),
        ));
    }
}

/// Behind any text, the lines of the columns read back as the columns.
pub proof fn lemma_entries_of_lines(pre: Seq<char>, columns: Seq<Seq<char>>)
    requires
        forall|i: int| 0 <= i < columns.len() ==> (#[trigger] columns[i]).len() > 0,
        forall|i: int, k: int|
            0 <= i < columns.len() && 0 <= k < columns[i].len() ==> (#[trigger] columns[i][k])
                != '\n',
    ensures
        column_entries(pre + column_lines(columns), pre.len() as int) == columns,
    decreases columns.len(),
{
    let s = pre + column_lines(columns);
    if columns.len() == 0 {
        assert(column_entries(s, pre.len() as int) =~= columns);
    } else {
        let c = columns[0];
        let rest = columns.drop_first();
        let p = pre.len() as int;
        lemma_column_lines_front(columns);
        let next = pre + seq!['-', ' '] + c + seq!['\n'];
        assert(s =~= next + column_lines(rest));
        assert(s.subrange(p + 2, p + 2 + c.len()) =~= c);
        assert forall|k: int| 0 <= k < c.len() implies c[k] != '\n' by {
            assert(columns[0][k] != '\n');
        }
        lemma_entry_at(s, p, c);
        assert forall|i: int| 0 <= i < rest.len() implies (#[trigger] rest[i]).len() > 0 by {
            assert(rest[i] == columns[i + 1]);
        }
        assert forall|i: int, k: int|
            0 <= i < rest.len() && 0 <= k < rest[i].len() implies (#[trigger] rest[i][k])
            != '\n' by {
            assert(rest[i] == columns[i + 1]);
            assert(columns[i + 1][k] != '\n');
        }
        lemma_entries_of_lines(next, rest);
        assert(next.len() == p + 3 + c.len());
        assert(seq![c] + rest =~= columns);
    }
}

/// The text that presents a board reads back as that board: the name is
/// found as the heading and the columns as the entries, in their order, for
/// every name that is not empty and holds no `=` or line break, and columns
/// that are not empty and hold no line break.
pub proof fn law_board_text_reads_back(name: Seq<char>, columns: Seq<Seq<char>>)
    requires
        name.len() > 0,
        forall|k: int| 0 <= k < name.len() ==> name[k] != '=' && name[k] != '\n',
        forall|i: int| 0 <= i < columns.len() ==> (#[trigger] columns[i]).len() > 0,
        forall|i: int, k: int|
            0 <= i < columns.len() && 0 <= k < columns[i].len() ==> (#[trigger] columns[i][k])
                != '\n',
    ensures
        has_heading(board_text(name, columns)),
        heading_text(board_text(name, columns)) == name,
        board_columns(board_text(name, columns)) == columns,
{
    let s = board_text(name, columns);
    let pre = name + rule();
    let e = name.len() as int;
    let f = e + 11;
    assert(rule().len() == 13);
    assert(s =~= pre + column_lines(columns));
    assert forall|k: int| 0 <= k < e implies s[k] == name[k] by {}
    assert forall|k: int| e <= k < e + 13 implies s[k] == rule()[k - e] by {}
    assert(heading_at(s, e, f));
    lemma_heading_unique(s, e, f);
    assert(s.subrange(0, e) =~= name);
    assert(body_start(s) == pre.len());
    lemma_entries_of_lines(pre, columns);
}

/// A new card heads the list of the leftmost column of its board.
pub proof fn law_new_card_is_listed_first(
    t: Tables,
    board_id: u64,
    title: Seq<char>,
    body: Seq<char>,
    cards: Seq<CardView>,
)
    requires
        t.wf(),
        t.insert_card_error(board_id) is None,
        t.insert_card(board_id, title, body).is_card_listing(
            t.columns[t.first_column(board_id)].id,
            cards,
        ),
    ensures
        cards.len() > 0,
        cards[0] == card_view(t.new_card(board_id, title, body)),
        cards[0].title == title,
        cards[0].body == body,
{
    let u = t.insert_card(board_id, title, body);
    let card = t.new_card(board_id, title, body);
    let n = t.cards.len() as int;
    let column_id = t.columns[t.first_column(board_id)].id;
    assert(u.cards[n] == card);
    assert(cards.contains(card_view(u.cards[n])));
    let i = choose|i: int| 0 <= i < cards.len() && cards[i] == card_view(card);
    if i != 0 {
        assert(cards[0].id > cards[i].id);
        assert(u.has_card_in(column_id, cards[0]));
        let j = choose|j: int|
            0 <= j < u.cards.len() && (#[trigger] u.cards[j]).column_id == column_id && card_view(
                u.cards[j],
            ) == cards[0];
        if j < n {
            assert(u.cards[j] == t.cards[j]);
            assert(t.cards[j].id < t.next_card_id);
        }
    }
}

/// A card whose status has been set is listed in its new column, and in no
/// other column.
pub proof fn law_moved_card_changes_column(
    t: Tables,
    board_id: u64,
    card_id: u64,
    name: Seq<char>,
    column_id: u64,
    cards: Seq<CardView>,
)
    requires
        t.wf(),
        t.can_move_card(board_id, card_id, name),
        t.clock < u64::MAX,
        t.move_card(board_id, card_id, name).is_card_listing(column_id, cards),
    ensures
        (exists|i: int| 0 <= i < cards.len() && (#[trigger] cards[i]).id == card_id) <==> column_id
            == t.columns[t.column_index(board_id, name)].id,
{
    let u = t.move_card(board_id, card_id, name);
    let w = t.card_index(card_id);
    let target = t.columns[t.column_index(board_id, name)].id;
    t.lemma_card_index(w);
    assert(u.cards[w].id == card_id);
    assert(u.cards[w].column_id == target);
    if column_id == target {
        assert(cards.contains(card_view(u.cards[w])));
        let i = choose|i: int| 0 <= i < cards.len() && cards[i] == card_view(u.cards[w]);
        assert(cards[i].id == card_id);
    }
    if exists|i: int| 0 <= i < cards.len() && (#[trigger] cards[i]).id == card_id {
        let i = choose|i: int| 0 <= i < cards.len() && (#[trigger] cards[i]).id == card_id;
        assert(u.has_card_in(column_id, cards[i]));
        let j = choose|j: int|
            0 <= j < u.cards.len() && (#[trigger] u.cards[j]).column_id == column_id && card_view(
                u.cards[j],
            ) == cards[i];
        if j != w {
            assert(u.cards[j] == t.cards[j]);
            t.lemma_card_index(j);
        }
    }
}

/// A board whose columns have been placed anew has a column, if a name was
/// given.
pub proof fn lemma_rearranged_board_has_columns(
    t: Tables,
    board_id: u64,
    name: Seq<char>,
    names: Seq<Seq<char>>,
)
    requires
        t.wf(),
        t.reorder_error(board_id, name, names.len()) is None,
        names.len() > 0,
    ensures
        t.reorder(board_id, name, names).has_any_column(board_id),
{
    let n = names.len() as int;
    let before = t.place_columns(board_id, names, n - 1);
    let placed = before.place_column(board_id, names[n - 1], (n - 1) as u64);
    assert(placed == t.place_columns(board_id, names, n));
    t.lemma_place_columns(board_id, names, n - 1);
    if before.has_column(board_id, names[n - 1]) {
        let k = before.column_index(board_id, names[n - 1]);
        assert(before.is_column_of(k, board_id, names[n - 1]));
        assert(placed.columns[k].board_id == board_id);
    } else {
        assert(placed.columns[before.columns.len() as int].board_id == board_id);
    }
    assert(t.reorder(board_id, name, names).columns == placed.columns);
}

/// Once a board has been edited in the picker, it is the selected board, at
/// the head of the list, under its new name.
pub proof fn law_edited_board_is_selected(
    pre: Model,
    reply: Result<String, Error>,
    post: Model,
    out: Result<Action, Error>,
)
    requires
        pre.wf(),
        pre.spec_selected_meta() is Some,
        stepped(pre, Message::EditBoard, Some(reply), post, out),
        out is Ok,
    ensures
        reply is Ok,
        post.board_metas@.len() > 0,
        post.selected.board_index == Some(0usize),
        post.selected.board_id == pre.spec_selected_meta()->0.id,
        post.board_metas@[0]@.id == pre.spec_selected_meta()->0.id,
        post.board_metas@[0]@.name == heading_text(reply->Ok_0@),
{
    let text = reply->Ok_0@;
    let t = pre.repo@;
    let id = pre.spec_selected_meta()->0.id;
    let name = heading_text(text);
    let names = board_columns(text);
    let u = t.rearrange(id, name, names);
    let metas = meta_views(post.board_metas@);
    t.lemma_rearrange(id, name, names);
    lemma_rearranged_board_has_columns(t, id, name, names);
    assert(u.has_any_column(id)) by {
        assert(u.columns == t.reorder(id, name, names).columns);
        let k = choose|k: int|
            0 <= k < u.columns.len() && #[trigger] u.columns[k].board_id == id;
        assert(u.columns[k].board_id == id);
    }
    law_viewed_board_is_listed_first(u, id, metas);
    assert(metas[0] == post.board_metas@[0]@);
    let v = t.reorder(id, name, names);
    t.lemma_reorder(id, name, names);
    let x = v.lemma_meta_board(metas[0]);
    v.lemma_board_index(x);
    let b = u.board_index(id);
    assert(v.boards[b].id == id);
    v.lemma_board_index(b);
}

} // verus!
