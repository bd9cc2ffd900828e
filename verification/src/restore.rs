//! Taking rows back into the store: the rows that were handed out for
//! safekeeping are checked before the store relies on them.

use vstd::prelude::*;
use crate::repo::{BoardRow, CardRow, ColumnRow, Counters, board_recs, card_recs, column_recs};
use crate::text::same_text;
use crate::tables::Tables;

verus! {

/// The tables that the rows and counters make up.
pub open spec fn tables_of(
    boards: Seq<BoardRow>,
    columns: Seq<ColumnRow>,
    cards: Seq<CardRow>,
    counters: Counters,
) -> Tables {
    Tables {
        boards: board_recs(boards),
        columns: column_recs(columns),
        cards: card_recs(cards),
        next_board_id: counters.next_board_id,
        next_column_id: counters.next_column_id,
        next_card_id: counters.next_card_id,
        clock: counters.clock,
    }
}

/// Whether the identities rise and stay within `1..next`.
fn ids_rise(ids: &Vec<u64>, next: u64) -> (ok: bool)
    ensures
        ok == ((forall|i: int, j: int| 0 <= i < j < ids.len() ==> ids[i] < ids[j]) && (forall|
            i: int,
        |
            0 <= i < ids.len() ==> 1 <= #[trigger] ids[i] < next)),
{
    let mut i: usize = 0;
    while i < ids.len()
        invariant
            i <= ids.len(),
            forall|a: int, b: int| 0 <= a < b < i ==> ids[a] < ids[b],
            forall|a: int| 0 <= a < i ==> 1 <= #[trigger] ids[a] < next,
        decreases ids.len() - i,
    {
        if ids[i] < 1 || ids[i] >= next {
            return false;
        }
        if i > 0 && ids[i - 1] >= ids[i] {
            assert(!(ids[i - 1] < ids[i as int]));
            return false;
        }
        assert forall|a: int, b: int| 0 <= a < b < i + 1 implies ids[a] < ids[b] by {
            if b == i && a < i - 1 {
                assert(ids[a] < ids[i - 1]);
            }
        }
        i = i + 1;
    }
    true
}

fn board_ids(boards: &Vec<BoardRow>) -> (ids: Vec<u64>)
    ensures
        ids.len() == boards.len(),
        forall|i: int| 0 <= i < ids.len() ==> ids[i] == boards[i].id,
{
    let mut ids: Vec<u64> = Vec::new();
    let mut i: usize = 0;
    while i < boards.len()
        invariant
            i <= boards.len(),
            ids.len() == i,
            forall|a: int| 0 <= a < i ==> ids[a] == boards[a].id,
        decreases boards.len() - i,
    {
        ids.push(boards[i].id);
        i = i + 1;
    }
    ids
}

fn column_ids(columns: &Vec<ColumnRow>) -> (ids: Vec<u64>)
    ensures
        ids.len() == columns.len(),
        forall|i: int| 0 <= i < ids.len() ==> ids[i] == columns[i].id,
{
    let mut ids: Vec<u64> = Vec::new();
    let mut i: usize = 0;
    while i < columns.len()
        invariant
            i <= columns.len(),
            ids.len() == i,
            forall|a: int| 0 <= a < i ==> ids[a] == columns[a].id,
        decreases columns.len() - i,
    {
        ids.push(columns[i].id);
        i = i + 1;
    }
    ids
}

fn card_ids(cards: &Vec<CardRow>) -> (ids: Vec<u64>)
    ensures
        ids.len() == cards.len(),
        forall|i: int| 0 <= i < ids.len() ==> ids[i] == cards[i].id,
{
    let mut ids: Vec<u64> = Vec::new();
    let mut i: usize = 0;
    while i < cards.len()
        invariant
            i <= cards.len(),
            ids.len() == i,
            forall|a: int| 0 <= a < i ==> ids[a] == cards[a].id,
        decreases cards.len() - i,
    {
        ids.push(cards[i].id);
        i = i + 1;
    }
    ids
}

/// Whether the names of the boards differ, and those of the columns within
/// each board.
fn names_differ(boards: &Vec<BoardRow>, columns: &Vec<ColumnRow>) -> (ok: bool)
    ensures
        ok == ((forall|i: int, j: int|
            0 <= i < j < boards.len() ==> boards[i].name@ != boards[j].name@) && (forall|
            i: int,
            j: int,
        |
            0 <= i < j < columns.len() && columns[i].board_id == columns[j].board_id
                ==> columns[i].name@ != columns[j].name@)),
{
    let mut j: usize = 0;
    while j < boards.len()
        invariant
            j <= boards.len(),
            forall|a: int, b: int| 0 <= a < b < j ==> boards[a].name@ != boards[b].name@,
        decreases boards.len() - j,
    {
        let mut i: usize = 0;
        while i < j
            invariant
                i <= j < boards.len(),
                forall|a: int| 0 <= a < i ==> boards[a].name@ != boards[j as int].name@,
            decreases j - i,
        {
            if same_text(boards[i].name.as_str(), boards[j].name.as_str()) {
                return false;
            }
            i = i + 1;
        }
        j = j + 1;
    }
    let mut j: usize = 0;
    while j < columns.len()
        invariant
            j <= columns.len(),
            forall|a: int, b: int| 0 <= a < b < boards.len() ==> boards[a].name@ != boards[b].name@,
            forall|a: int, b: int|
                0 <= a < b < j && columns[a].board_id == columns[b].board_id ==> columns[a].name@
                    != columns[b].name@,
        decreases columns.len() - j,
    {
        let mut i: usize = 0;
        while i < j
            invariant
                i <= j < columns.len(),
                forall|a: int|
                    0 <= a < i && columns[a].board_id == columns[j as int].board_id
                        ==> columns[a].name@ != columns[j as int].name@,
            decreases j - i,
        {
            if columns[i].board_id == columns[j].board_id && same_text(
                columns[i].name.as_str(),
                columns[j].name.as_str(),
            ) {
                return false;
            }
            i = i + 1;
        }
        j = j + 1;
    }
    true
}

/// The position of the board with identity `id`.
fn position_of_board(boards: &Vec<BoardRow>, id: u64) -> (r: Option<usize>)
    ensures
        match r {
            Some(i) => i < boards.len() && boards[i as int].id == id,
            None => forall|i: int| 0 <= i < boards.len() ==> boards[i].id != id,
        },
{
    let mut i: usize = 0;
    while i < boards.len()
        invariant
            i <= boards.len(),
            forall|a: int| 0 <= a < i ==> boards[a].id != id,
        decreases boards.len() - i,
    {
        if boards[i].id == id {
            return Some(i);
        }
        i = i + 1;
    }
    None
}

/// Whether every column and card belongs to a board, and every card points
/// to a column of its board.
fn references_hold(
    boards: &Vec<BoardRow>,
    columns: &Vec<ColumnRow>,
    cards: &Vec<CardRow>,
    Ghost(counters): Ghost<Counters>,
) -> (ok: bool)
    ensures
        ok == tables_of(boards@, columns@, cards@, counters).references_hold(),
{
    let ghost t = tables_of(boards@, columns@, cards@, counters);
    let mut k: usize = 0;
    while k < columns.len()
        invariant
            k <= columns.len(),
            t == tables_of(boards@, columns@, cards@, counters),
            forall|a: int| 0 <= a < k ==> t.has_board(#[trigger] t.columns[a].board_id),
        decreases columns.len() - k,
    {
        match position_of_board(boards, columns[k].board_id) {
            Some(b) => {
                assert(t.boards[b as int].id == t.columns[k as int].board_id);
            },
            None => {
                assert(!t.has_board(t.columns[k as int].board_id)) by {
                    if t.has_board(t.columns[k as int].board_id) {
                        let w = t.board_index(t.columns[k as int].board_id);
                        assert(boards[w].id == t.boards[w].id);
                    }
                }
                return false;
            },
        }
        k = k + 1;
    }
    let mut i: usize = 0;
    while i < cards.len()
        invariant
            i <= cards.len(),
            t == tables_of(boards@, columns@, cards@, counters),
            forall|a: int| 0 <= a < columns.len() ==> t.has_board(#[trigger] t.columns[a].board_id),
            forall|a: int| 0 <= a < i ==> t.has_board(#[trigger] t.cards[a].board_id),
            forall|a: int| 0 <= a < i ==> t.card_column_exists(#[trigger] t.cards[a]),
        decreases cards.len() - i,
    {
        match position_of_board(boards, cards[i].board_id) {
            Some(b) => {
                assert(t.boards[b as int].id == t.cards[i as int].board_id);
            },
            None => {
                assert(!t.has_board(t.cards[i as int].board_id)) by {
                    if t.has_board(t.cards[i as int].board_id) {
                        let w = t.board_index(t.cards[i as int].board_id);
                        assert(boards[w].id == t.boards[w].id);
                    }
                }
                return false;
            },
        }
        let mut found = false;
        let mut k: usize = 0;
        while k < columns.len() && !found
            invariant
                k <= columns.len(),
                i < cards.len(),
                t == tables_of(boards@, columns@, cards@, counters),
                found ==> t.card_column_exists(t.cards[i as int]),
                !found ==> forall|a: int|
                    0 <= a < k ==> !(t.columns[a].id == t.cards[i as int].column_id
                        && t.columns[a].board_id == t.cards[i as int].board_id),
            decreases columns.len() - k + if found { 0int } else { 1int },
        {
            if columns[k].id == cards[i].column_id && columns[k].board_id == cards[i].board_id {
                assert(t.columns[k as int].id == t.cards[i as int].column_id);
                found = true;
            } else {
                k = k + 1;
            }
        }
        if !found {
            assert(!t.card_column_exists(t.cards[i as int]));
            return false;
        }
        i = i + 1;
    }
    true
}

/// Whether the numbers of the cards start at 1, rise within each board, and
/// stay below the board's counter.
fn numbers_rise(
    boards: &Vec<BoardRow>,
    columns: &Vec<ColumnRow>,
    cards: &Vec<CardRow>,
    Ghost(counters): Ghost<Counters>,
) -> (ok: bool)
    ensures
        ok == tables_of(boards@, columns@, cards@, counters).numbers_ordered(),
{
    let ghost t = tables_of(boards@, columns@, cards@, counters);
    let mut b: usize = 0;
    while b < boards.len()
        invariant
            b <= boards.len(),
            t == tables_of(boards@, columns@, cards@, counters),
            forall|a: int| 0 <= a < b ==> #[trigger] t.boards[a].next_number >= 1,
        decreases boards.len() - b,
    {
        if boards[b].next_number < 1 {
            assert(t.boards[b as int].next_number < 1);
            return false;
        }
        b = b + 1;
    }
    let mut j: usize = 0;
    while j < cards.len()
        invariant
            j <= cards.len(),
            t == tables_of(boards@, columns@, cards@, counters),
            forall|a: int| 0 <= a < boards.len() ==> #[trigger] t.boards[a].next_number >= 1,
            forall|a: int| 0 <= a < j ==> #[trigger] t.cards[a].number >= 1,
            forall|a: int, c: int|
                0 <= a < j && 0 <= c < t.boards.len() && #[trigger] t.cards[a].board_id
                    == #[trigger] t.boards[c].id ==> t.cards[a].number < t.boards[c].next_number,
            forall|a: int, c: int|
                0 <= a < c < j && t.cards[a].board_id == t.cards[c].board_id ==> t.cards[a].number
                    < t.cards[c].number,
        decreases cards.len() - j,
    {
        if cards[j].number < 1 {
            assert(t.cards[j as int].number < 1);
            return false;
        }
        let mut c: usize = 0;
        while c < boards.len()
            invariant
                c <= boards.len(),
                j < cards.len(),
                t == tables_of(boards@, columns@, cards@, counters),
                forall|a: int|
                    0 <= a < c && t.cards[j as int].board_id == #[trigger] t.boards[a].id
                        ==> t.cards[j as int].number < t.boards[a].next_number,
            decreases boards.len() - c,
        {
            if boards[c].id == cards[j].board_id && cards[j].number >= boards[c].next_number {
                assert(t.cards[j as int].board_id == t.boards[c as int].id);
                return false;
            }
            c = c + 1;
        }
        let mut i: usize = 0;
        while i < j
            invariant
                i <= j < cards.len(),
                t == tables_of(boards@, columns@, cards@, counters),
                forall|a: int|
                    0 <= a < i && t.cards[a].board_id == t.cards[j as int].board_id
                        ==> t.cards[a].number < t.cards[j as int].number,
            decreases j - i,
        {
            if cards[i].board_id == cards[j].board_id && cards[i].number >= cards[j].number {
                assert(t.cards[i as int].board_id == t.cards[j as int].board_id);
                return false;
            }
            i = i + 1;
        }
        j = j + 1;
    }
    true
}

/// Whether no row is stamped later than the clock shows.
fn stamps_fit(boards: &Vec<BoardRow>, cards: &Vec<CardRow>, clock: u64) -> (ok: bool)
    ensures
        ok == ((forall|i: int|
            0 <= i < boards.len() ==> (#[trigger] boards[i]).inserted_at <= clock
                && boards[i].updated_at <= clock && boards[i].viewed_at <= clock) && (forall|
            i: int,
        |
            0 <= i < cards.len() ==> (#[trigger] cards[i]).inserted_at <= clock
                && cards[i].updated_at <= clock)),
{
    let mut i: usize = 0;
    while i < boards.len()
        invariant
            i <= boards.len(),
            forall|a: int|
                0 <= a < i ==> (#[trigger] boards[a]).inserted_at <= clock && boards[a].updated_at
                    <= clock && boards[a].viewed_at <= clock,
        decreases boards.len() - i,
    {
        if boards[i].inserted_at > clock || boards[i].updated_at > clock || boards[i].viewed_at
            > clock {
            return false;
        }
        i = i + 1;
    }
    let mut i: usize = 0;
    while i < cards.len()
        invariant
            i <= cards.len(),
            forall|a: int|
                0 <= a < boards.len() ==> (#[trigger] boards[a]).inserted_at <= clock
                    && boards[a].updated_at <= clock && boards[a].viewed_at <= clock,
            forall|a: int|
                0 <= a < i ==> (#[trigger] cards[a]).inserted_at <= clock && cards[a].updated_at
                    <= clock,
        decreases cards.len() - i,
    {
        if cards[i].inserted_at > clock || cards[i].updated_at > clock {
            return false;
        }
        i = i + 1;
    }
    true
}

/// Whether the rows and counters make up consistent tables.
pub fn consistent(
    boards: &Vec<BoardRow>,
    columns: &Vec<ColumnRow>,
    cards: &Vec<CardRow>,
    counters: &Counters,
) -> (ok: bool)
    ensures
        ok == tables_of(boards@, columns@, cards@, *counters).wf(),
{
    let ghost t = tables_of(boards@, columns@, cards@, *counters);
    let bids = board_ids(boards);
    let cids = column_ids(columns);
    let kids = card_ids(cards);
    let ids = ids_rise(&bids, counters.next_board_id) && ids_rise(&cids, counters.next_column_id)
        && ids_rise(&kids, counters.next_card_id) && counters.next_board_id >= 1
        && counters.next_column_id >= 1 && counters.next_card_id >= 1;
    proof {
        assert forall|i: int| 0 <= i < boards.len() implies bids[i] == (#[trigger] t.boards[i]).id by {}
        assert forall|i: int| 0 <= i < columns.len() implies cids[i] == (
        #[trigger] t.columns[i]).id by {}
        assert forall|i: int| 0 <= i < cards.len() implies kids[i] == (#[trigger] t.cards[i]).id by {}
        if ids {
            assert(t.ids_ordered());
        } else {
            if t.ids_ordered() {
                assert forall|i: int, j: int| 0 <= i < j < bids.len() implies bids[i] < bids[j] by {
                    assert(t.boards[i].id < t.boards[j].id);
                }
                assert forall|i: int, j: int| 0 <= i < j < cids.len() implies cids[i] < cids[j] by {
                    assert(t.columns[i].id < t.columns[j].id);
                }
                assert forall|i: int, j: int| 0 <= i < j < kids.len() implies kids[i] < kids[j] by {
                    assert(t.cards[i].id < t.cards[j].id);
                }
                assert forall|i: int| 0 <= i < bids.len() implies 1 <= #[trigger] bids[i]
                    < counters.next_board_id by {
                    assert(t.boards[i].id == bids[i]);
                }
                assert forall|i: int| 0 <= i < cids.len() implies 1 <= #[trigger] cids[i]
                    < counters.next_column_id by {
                    assert(t.columns[i].id == cids[i]);
                }
                assert forall|i: int| 0 <= i < kids.len() implies 1 <= #[trigger] kids[i]
                    < counters.next_card_id by {
                    assert(t.cards[i].id == kids[i]);
                }
            }
            assert(!t.ids_ordered());
        }
    }
    if !ids {
        return false;
    }
    let names = names_differ(boards, columns);
    proof {
        assert(names == t.names_unique()) by {
            assert forall|i: int| 0 <= i < boards.len() implies boards[i].name@ == (
            #[trigger] t.boards[i]).name by {}
            assert forall|i: int| 0 <= i < columns.len() implies columns[i].name@ == (
            #[trigger] t.columns[i]).name && columns[i].board_id == t.columns[i].board_id by {}
            if t.names_unique() {
                assert forall|i: int, j: int| 0 <= i < j < boards.len() implies boards[i].name@
                    != boards[j].name@ by {
                    assert(t.boards[i].name != t.boards[j].name);
                }
                assert forall|i: int, j: int|
                    0 <= i < j < columns.len() && columns[i].board_id
                        == columns[j].board_id implies columns[i].name@ != columns[j].name@ by {
                    assert(t.columns[i].name != t.columns[j].name);
                }
            }
            if names {
                assert forall|i: int, j: int| 0 <= i < j < t.boards.len() implies t.boards[i].name
                    != t.boards[j].name by {
                    assert(boards[i].name@ != boards[j].name@);
                }
                assert forall|i: int, j: int|
                    0 <= i < j < t.columns.len() && t.columns[i].board_id
                        == t.columns[j].board_id implies t.columns[i].name
                    != t.columns[j].name by {
                    assert(columns[i].name@ != columns[j].name@);
                }
            }
        }
    }
    if !names {
        return false;
    }
    if !references_hold(boards, columns, cards, Ghost(*counters)) {
        return false;
    }
    if !numbers_rise(boards, columns, cards, Ghost(*counters)) {
        return false;
    }
    let stamps = stamps_fit(boards, cards, counters.clock);
    proof {
        assert(stamps == t.stamps_bounded()) by {
            if t.stamps_bounded() {
                assert forall|i: int| 0 <= i < boards.len() implies (#[trigger] boards[i]).inserted_at
                    <= counters.clock && boards[i].updated_at <= counters.clock
                    && boards[i].viewed_at <= counters.clock by {
                    assert(t.boards[i].inserted_at <= t.clock);
                }
                assert forall|i: int| 0 <= i < cards.len() implies (#[trigger] cards[i]).inserted_at
                    <= counters.clock && cards[i].updated_at <= counters.clock by {
                    assert(t.cards[i].inserted_at <= t.clock);
                }
            }
            if stamps {
                assert forall|i: int| 0 <= i < t.boards.len() implies (#[trigger] t.boards[i]).inserted_at
                    <= t.clock && t.boards[i].updated_at <= t.clock && t.boards[i].viewed_at
                    <= t.clock by {
                    assert(boards[i].inserted_at <= counters.clock);
                }
                assert forall|i: int| 0 <= i < t.cards.len() implies (#[trigger] t.cards[i]).inserted_at
                    <= t.clock && t.cards[i].updated_at <= t.clock by {
                    assert(cards[i].inserted_at <= counters.clock);
                }
            }
        }
    }
    stamps
}

} // verus!
