//! The store: boards, columns and cards, kept consistent by every operation.
//!
//! The store holds plain rows. What an operation does to them is stated over
//! [`Tables`], the model that the store's view gives.

use vstd::prelude::*;
use crate::board::{Board, BoardMeta, Card, Column, card_views, column_views, meta_views, name_views};
use crate::error::Error;
use crate::order::{is_rising, rising};
use crate::tables::{BoardRec, CardRec, ColumnRec, Tables, card_view, column_before, column_names};
use crate::text::{same_text, views};

verus! {

/// One board, as it is kept and handed out for safekeeping.
#[derive(Debug)]
pub struct BoardRow {
    pub id: u64,
    pub name: String,
    pub next_number: u64,
    pub inserted_at: u64,
    pub updated_at: u64,
    pub viewed_at: u64,
}

impl View for BoardRow {
    type V = BoardRec;

    open spec fn view(&self) -> BoardRec {
        BoardRec {
            id: self.id,
            name: self.name@,
            next_number: self.next_number,
            inserted_at: self.inserted_at,
            updated_at: self.updated_at,
            viewed_at: self.viewed_at,
        }
    }
}

/// One column, as it is kept.
#[derive(Debug)]
pub struct ColumnRow {
    pub id: u64,
    pub board_id: u64,
    pub name: String,
    pub order: u64,
}

impl View for ColumnRow {
    type V = ColumnRec;

    open spec fn view(&self) -> ColumnRec {
        ColumnRec { id: self.id, board_id: self.board_id, name: self.name@, order: self.order }
    }
}

/// One card, as it is kept.
#[derive(Debug)]
pub struct CardRow {
    pub id: u64,
    pub board_id: u64,
    pub column_id: u64,
    pub number: u64,
    pub title: String,
    pub body: String,
    pub inserted_at: u64,
    pub updated_at: u64,
}

impl View for CardRow {
    type V = CardRec;

    open spec fn view(&self) -> CardRec {
        CardRec {
            id: self.id,
            board_id: self.board_id,
            column_id: self.column_id,
            number: self.number,
            title: self.title@,
            body: self.body@,
            inserted_at: self.inserted_at,
            updated_at: self.updated_at,
        }
    }
}

pub open spec fn board_recs(rows: Seq<BoardRow>) -> Seq<BoardRec> {
    rows.map_values(|r: BoardRow| r@)
}

pub open spec fn column_recs(rows: Seq<ColumnRow>) -> Seq<ColumnRec> {
    rows.map_values(|r: ColumnRow| r@)
}

pub open spec fn card_recs(rows: Seq<CardRow>) -> Seq<CardRec> {
    rows.map_values(|r: CardRow| r@)
}

/// The counters of the store: the identities that are handed out next, and
/// the clock.
#[derive(Debug, Clone, Copy, PartialEq, Eq, Structural)]
pub struct Counters {
    pub next_board_id: u64,
    pub next_column_id: u64,
    pub next_card_id: u64,
    pub clock: u64,
}

/// The store.
#[derive(Debug)]
pub struct Repo {
    boards: Vec<BoardRow>,
    columns: Vec<ColumnRow>,
    cards: Vec<CardRow>,
    next_board_id: u64,
    next_column_id: u64,
    next_card_id: u64,
    clock: u64,
}

impl View for Repo {
    type V = Tables;

    closed spec fn view(&self) -> Tables {
        Tables {
            boards: board_recs(self.boards@),
            columns: column_recs(self.columns@),
            cards: card_recs(self.cards@),
            next_board_id: self.next_board_id,
            next_column_id: self.next_column_id,
            next_card_id: self.next_card_id,
            clock: self.clock,
        }
    }
}

impl Repo {
    /// The tables are consistent.
    pub open spec fn wf(&self) -> bool {
        self@.wf()
    }

    /// A store without any row.
    pub fn empty() -> (repo: Repo)
        ensures
            repo@ == Tables::empty(),
            repo.wf(),
    {
        let repo = Repo {
            boards: Vec::new(),
            columns: Vec::new(),
            cards: Vec::new(),
            next_board_id: 1,
            next_column_id: 1,
            next_card_id: 1,
            clock: 0,
        };
        assert(repo@.boards =~= Seq::empty());
        assert(repo@.columns =~= Seq::empty());
        assert(repo@.cards =~= Seq::empty());
        repo
    }

    /// Takes back rows and counters that a store has handed out. They are
    /// refused where they contradict one another.
    pub fn from_rows(
        boards: Vec<BoardRow>,
        columns: Vec<ColumnRow>,
        cards: Vec<CardRow>,
        counters: Counters,
    ) -> (r: Result<Repo, Error>)
        ensures
            match r {
                Ok(repo) => repo@ == crate::restore::tables_of(boards@, columns@, cards@, counters)
                    && repo.wf(),
                Err(e) => e == Error::InconsistentRows && !crate::restore::tables_of(
                    boards@,
                    columns@,
                    cards@,
                    counters,
                ).wf(),
            },
    {
        if !crate::restore::consistent(&boards, &columns, &cards, &counters) {
            return Err(Error::InconsistentRows);
        }
        Ok(
            Repo {
                boards,
                columns,
                cards,
                next_board_id: counters.next_board_id,
                next_column_id: counters.next_column_id,
                next_card_id: counters.next_card_id,
                clock: counters.clock,
            },
        )
    }

    /// The rows of the boards, for safekeeping.
    pub fn boards(&self) -> (rows: &Vec<BoardRow>)
        ensures
            board_recs(rows@) == self@.boards,
    {
        &self.boards
    }

    /// The rows of the columns, for safekeeping.
    pub fn columns(&self) -> (rows: &Vec<ColumnRow>)
        ensures
            column_recs(rows@) == self@.columns,
    {
        &self.columns
    }

    /// The rows of the cards, for safekeeping.
    pub fn cards(&self) -> (rows: &Vec<CardRow>)
        ensures
            card_recs(rows@) == self@.cards,
    {
        &self.cards
    }

    /// The counters, for safekeeping.
    pub fn counters(&self) -> (counters: Counters)
        ensures
            counters.next_board_id == self@.next_board_id,
            counters.next_column_id == self@.next_column_id,
            counters.next_card_id == self@.next_card_id,
            counters.clock == self@.clock,
    {
        Counters {
            next_board_id: self.next_board_id,
            next_column_id: self.next_column_id,
            next_card_id: self.next_card_id,
            clock: self.clock,
        }
    }

    /// Tells the store the time; its clock never moves back.
    pub fn set_time(&mut self, now: u64)
        requires
            old(self).wf(),
        ensures
            final(self)@ == old(self)@.set_time(now),
            final(self).wf(),
    {
        proof {
            self@.lemma_set_time(now);
        }
        if now > self.clock {
            self.clock = now;
        }
    }

    /// A fresh store, which holds one board without columns.
    pub fn new() -> (repo: Repo)
        ensures
            repo@ == Tables::empty().ensure_board(crate::tables::default_board_name()),
            repo.wf(),
    {
        let mut repo = Repo::empty();
        proof {
            assert(!repo@.has_board_named(crate::tables::default_board_name()));
        }
        let _ = repo.insert_board("my great board");
        repo
    }

    /// Adds a board called `name` unless there is one, and gives its identity.
    ///
    /// The new board has no columns. Where no identity or stamp is left the
    /// store stays as it is and `Exhausted` is returned.
    pub fn insert_board(&mut self, name: &str) -> (r: Result<u64, Error>)
        requires
            old(self).wf(),
        ensures
            final(self).wf(),
            match r {
                Ok(id) => {
                    &&& old(self)@.ensure_board_error(name@) is None
                    &&& final(self)@ == old(self)@.ensure_board(name@)
                    &&& final(self)@.has_board_named(name@)
                    &&& id == final(self)@.boards[final(self)@.board_named_index(name@)].id
                },
                Err(e) => old(self)@.ensure_board_error(name@) == Some(e) && final(self)@ == old(
                    self,
                )@,
            },
    {
        match self.find_board_named(name) {
            Some(i) => {
                proof {
                    let w = self@.board_named_index(name@);
                    assert(self@.boards[w].name == name@);
                    assert(w == i as int);
                }
                Ok(self.boards[i].id)
            },
            None => {
                if self.next_board_id == u64::MAX || self.clock == u64::MAX {
                    return Err(Error::Exhausted);
                }
                proof {
                    self@.lemma_add_board(name@);
                }
                let ghost pre = self@;
                let id = self.next_board_id;
                let now = self.clock + 1;
                self.boards.push(
                    BoardRow {
                        id,
                        name: name.to_owned(),
                        next_number: 1,
                        inserted_at: now,
                        updated_at: now,
                        viewed_at: now,
                    },
                );
                self.next_board_id = id + 1;
                self.clock = now;
                assert(self@.boards =~= pre.add_board(name@).boards);
                proof {
                    self@.lemma_board_named_index(pre.boards.len() as int);
                }
                Ok(id)
            },
        }
    }

    /// Whether no two of `names` are equal.
    fn all_distinct(names: &[&str]) -> (r: bool)
        ensures
            r == crate::tables::distinct_names(views(names@)),
    {
        let mut j: usize = 0;
        while j < names.len()
            invariant
                j <= names.len(),
                forall|a: int, b: int| 0 <= a < b < j ==> views(names@)[a] != views(names@)[b],
            decreases names.len() - j,
        {
            let mut i: usize = 0;
            while i < j
                invariant
                    i <= j < names.len(),
                    forall|a: int| 0 <= a < i ==> views(names@)[a] != views(names@)[j as int],
                decreases j - i,
            {
                if same_text(names[i], names[j]) {
                    assert(views(names@)[i as int] == views(names@)[j as int]);
                    return false;
                }
                i = i + 1;
            }
            j = j + 1;
        }
        true
    }

    /// Creates a board called `name` with the columns `column_names`, from
    /// left to right, and gives its identity.
    ///
    /// A board needs at least one column, a name that no board has, and
    /// column names that differ from one another; and there must be an
    /// identity left for the board and for each column, and a stamp. Where
    /// the request is refused the store stays as it is.
    pub fn create_board(&mut self, name: &str, column_names: &[&str]) -> (r: Result<u64, Error>)
        requires
            old(self).wf(),
        ensures
            final(self).wf(),
            match r {
                Ok(id) => old(self)@.create_board_error(name@, views(column_names@)) is None
                    && final(self)@ == old(self)@.create_board(name@, views(column_names@)) && id
                    == old(self)@.next_board_id,
                Err(e) => old(self)@.create_board_error(name@, views(column_names@)) == Some(e)
                    && final(self)@ == old(self)@,
            },
    {
        let n = column_names.len();
        if n == 0 {
            return Err(Error::NoColumns);
        }
        if self.find_board_named(name).is_some() {
            return Err(Error::DuplicateBoardName);
        }
        if !Repo::all_distinct(column_names) {
            return Err(Error::DuplicateColumnName);
        }
        if self.next_board_id == u64::MAX || self.clock == u64::MAX || u64::MAX
            - self.next_column_id < n as u64 {
            return Err(Error::Exhausted);
        }
        let ghost pre = self@;
        let ghost names = views(column_names@);
        proof {
            pre.lemma_create_board(name@, names);
        }
        let id = self.next_board_id;
        let now = self.clock + 1;
        self.boards.push(
            BoardRow {
                id,
                name: name.to_owned(),
                next_number: 1,
                inserted_at: now,
                updated_at: now,
                viewed_at: now,
            },
        );
        self.next_board_id = id + 1;
        self.clock = now;
        let first = self.next_column_id;
        let ghost fresh = pre.new_columns(id, names);
        let mut i: usize = 0;
        while i < n
            invariant
                n == column_names.len(),
                names == views(column_names@),
                fresh == pre.new_columns(id, names),
                first == pre.next_column_id,
                first + n <= u64::MAX,
                i <= n,
                column_recs(self.columns@) == pre.columns + fresh.take(i as int),
                self.boards@ == old(self).boards@.push(self.boards@.last()),
                self.boards@.last()@ == pre.new_board(name@),
                self.cards == old(self).cards,
                self.next_board_id == id + 1,
                self.next_card_id == pre.next_card_id,
                self.clock == now,
            decreases n - i,
        {
            let ghost before = column_recs(self.columns@);
            self.columns.push(
                ColumnRow {
                    id: first + i as u64,
                    board_id: id,
                    name: column_names[i].to_owned(),
                    order: i as u64,
                },
            );
            proof {
                assert(self.columns@.last()@ == fresh[i as int]);
                assert(column_recs(self.columns@) =~= before.push(fresh[i as int]));
                assert(fresh.take(i as int).push(fresh[i as int]) =~= fresh.take(i + 1));
                assert(before.push(fresh[i as int]) =~= pre.columns + fresh.take(i + 1));
            }
            i = i + 1;
        }
        self.next_column_id = first + n as u64;
        proof {
            assert(fresh.take(n as int) =~= fresh);
            assert(self@.boards =~= pre.create_board(name@, names).boards);
        }
        Ok(id)
    }

    /// The cards of column `column_id`, newest first.
    fn cards_in_column(&self, column_id: u64) -> (cards: Vec<Card>)
        requires
            self.wf(),
        ensures
            self@.is_card_listing(column_id, card_views(cards@)),
    {
        let mut out: Vec<Card> = Vec::new();
        let ghost mut src: Seq<int> = Seq::empty();
        let mut j: usize = self.cards.len();
        while j > 0
            invariant
                self.wf(),
                j <= self.cards.len(),
                out.len() == src.len(),
                forall|i: int|
                    0 <= i < src.len() ==> j <= (#[trigger] src[i]) < self.cards.len()
                        && self@.cards[src[i]].column_id == column_id && out@[i]@ == card_view(
                        self@.cards[src[i]],
                    ),
                forall|a: int, b: int| 0 <= a < b < src.len() ==> src[a] > src[b],
                forall|k: int|
                    j <= k < self.cards.len() && (#[trigger] self@.cards[k]).column_id == column_id
                        ==> src.contains(k),
            decreases j,
        {
            j = j - 1;
            if self.cards[j].column_id == column_id {
                let row = &self.cards[j];
                out.push(
                    Card {
                        id: row.id,
                        number: row.number,
                        title: row.title.clone(),
                        body: row.body.clone(),
                        inserted_at: row.inserted_at,
                        updated_at: row.updated_at,
                    },
                );
                proof {
                    let ghost before = src;
                    src = src.push(j as int);
                    assert forall|k: int|
                        j <= k < self.cards.len() && (#[trigger] self@.cards[k]).column_id
                            == column_id implies src.contains(k) by {
                        if k == j {
                            assert(src[src.len() - 1] == k);
                        } else {
                            assert(before.contains(k));
                            let w = choose|w: int| 0 <= w < before.len() && before[w] == k;
                            assert(src[w] == k);
                        }
                    }
                }
            }
        }
        proof {
            let views = card_views(out@);
            assert forall|i: int| 0 <= i < views.len() implies self@.has_card_in(
                column_id,
                #[trigger] views[i],
            ) by {
                assert(self@.cards[src[i]].column_id == column_id);
            }
            assert forall|k: int|
                0 <= k < self@.cards.len() && (#[trigger] self@.cards[k]).column_id
                    == column_id implies views.contains(card_view(self@.cards[k])) by {
                assert(src.contains(k));
                let w = choose|w: int| 0 <= w < src.len() && src[w] == k;
                assert(views[w] == card_view(self@.cards[k]));
            }
            assert forall|a: int, b: int| 0 <= a < b < views.len() implies views[a].id
                > views[b].id by {
                assert(src[a] > src[b]);
                assert(views[a].id == self@.cards[src[a]].id);
                assert(views[b].id == self@.cards[src[b]].id);
            }
        }
        out
    }

    /// The positions of the columns of board `board_id`, from left to right,
    /// and the columns that stand there.
    fn ordered_columns(&self, board_id: u64) -> (r: (Vec<usize>, Ghost<Seq<ColumnRec>>))
        requires
            self.wf(),
        ensures
            self@.is_column_listing(board_id, r.1@),
            r.0.len() == r.1@.len(),
            forall|i: int|
                0 <= i < r.0.len() ==> (#[trigger] r.0[i]) < self@.columns.len()
                    && self@.columns[r.0[i] as int] == r.1@[i],
    {
        let mut sel: Vec<usize> = Vec::new();
        let mut keys: Vec<(u64, u64)> = Vec::new();
        let mut k: usize = 0;
        while k < self.columns.len()
            invariant
                self.wf(),
                k <= self.columns.len(),
                sel.len() == keys.len(),
                forall|s: int|
                    0 <= s < sel.len() ==> (#[trigger] sel[s]) < k && self@.columns[sel[s] as int].board_id
                        == board_id && keys[s] == (
                        self@.columns[sel[s] as int].order,
                        self@.columns[sel[s] as int].id,
                    ),
                forall|a: int, b: int| 0 <= a < b < sel.len() ==> sel[a] < sel[b],
                forall|j: usize|
                    j < k && (#[trigger] self@.columns[j as int]).board_id == board_id
                        ==> sel@.contains(j),
            decreases self.columns.len() - k,
        {
            if self.columns[k].board_id == board_id {
                let ghost before = sel@;
                sel.push(k);
                keys.push((self.columns[k].order, self.columns[k].id));
                proof {
                    assert forall|j: usize|
                        j < k + 1 && (#[trigger] self@.columns[j as int]).board_id
                            == board_id implies sel@.contains(j) by {
                        if j == k {
                            assert(sel@[sel.len() - 1] == j);
                        } else {
                            assert(before.contains(j));
                            let w = choose|w: int| 0 <= w < before.len() && before[w] == j;
                            assert(sel@[w] == j);
                        }
                    }
                }
            }
            k = k + 1;
        }
        assert forall|a: int, b: int| 0 <= a < b < keys.len() implies keys[a] != keys[b] by {
            assert(sel[a] < sel[b]);
            assert(self@.columns[sel[a] as int].id < self@.columns[sel[b] as int].id);
        }
        let out = rising(&keys);
        let mut idx: Vec<usize> = Vec::new();
        let mut i: usize = 0;
        while i < out.len()
            invariant
                i <= out.len(),
                is_rising(keys@, out@),
                sel.len() == keys.len(),
                idx.len() == i,
                forall|a: int| 0 <= a < i ==> (#[trigger] idx[a]) == sel[out[a] as int],
            decreases out.len() - i,
        {
            idx.push(sel[out[i]]);
            i = i + 1;
        }
        let ghost cols = Seq::new(idx.len() as nat, |a: int| self@.columns[idx[a] as int]);
        proof {
            assert forall|a: int| 0 <= a < cols.len() implies self@.columns.contains(
                #[trigger] cols[a],
            ) && cols[a].board_id == board_id by {
                assert(idx[a] == sel[out[a] as int]);
                assert(sel[out[a] as int] < k);
            }
            assert forall|j: int|
                0 <= j < self@.columns.len() && (#[trigger] self@.columns[j]).board_id
                    == board_id implies cols.contains(self@.columns[j]) by {
                assert(sel@.contains(j as usize));
                let s = choose|s: int| 0 <= s < sel.len() && sel[s] == j as usize;
                assert(out@.contains(s as usize));
                let a = choose|a: int| 0 <= a < out.len() && out[a] == s as usize;
                assert(idx[a] == sel[out[a] as int]);
                assert(cols[a] == self@.columns[j]);
            }
            assert forall|a: int, b: int| 0 <= a < b < cols.len() implies column_before(
                cols[a],
                cols[b],
            ) by {
                assert(idx[a] == sel[out[a] as int]);
                assert(idx[b] == sel[out[b] as int]);
                assert(crate::order::key_before(keys[out[a] as int], keys[out[b] as int]));
            }
            assert forall|a: int| 0 <= a < idx.len() implies (#[trigger] idx[a])
                < self@.columns.len() && self@.columns[idx[a] as int] == cols[a] by {
                assert(idx[a] == sel[out[a] as int]);
                assert(sel[out[a] as int] < k);
            }
        }
        (idx, Ghost(cols))
    }

    /// The cards of the column of board `board_id` called `column_name`,
    /// newest first. There are none where the board has no such column.
    pub fn cards_for_column(&self, board_id: u64, column_name: &str) -> (cards: Vec<Card>)
        requires
            self.wf(),
        ensures
            self@.is_cards_of(board_id, column_name@, card_views(cards@)),
    {
        match self.find_column(board_id, column_name) {
            Some(k) => {
                proof {
                    let w = self@.column_index(board_id, column_name@);
                    assert(self@.is_column_of(w, board_id, column_name@));
                    assert(w == k as int);
                }
                self.cards_in_column(self.columns[k].id)
            },
            None => {
                let cards: Vec<Card> = Vec::new();
                assert(card_views(cards@).len() == 0);
                cards
            },
        }
    }

    /// The columns of board `board_id` from left to right, each with its
    /// cards newest first.
    pub fn get_cards_for_board(&self, board_id: u64) -> (columns: Vec<Column>)
        requires
            self.wf(),
        ensures
            self@.is_columns_of(board_id, column_views(columns@)),
    {
        let (idx, Ghost(cols)) = self.ordered_columns(board_id);
        let mut columns: Vec<Column> = Vec::new();
        let mut i: usize = 0;
        while i < idx.len()
            invariant
                self.wf(),
                i <= idx.len(),
                idx.len() == cols.len(),
                columns.len() == i,
                forall|a: int|
                    0 <= a < idx.len() ==> (#[trigger] idx[a]) < self@.columns.len()
                        && self@.columns[idx[a] as int] == cols[a],
                forall|a: int|
                    0 <= a < i ==> (#[trigger] columns[a])@.name == cols[a].name
                        && self@.is_card_listing(cols[a].id, columns[a]@.cards),
            decreases idx.len() - i,
        {
            let k = idx[i];
            let cards = self.cards_in_column(self.columns[k].id);
            columns.push(Column { name: self.columns[k].name.clone(), cards });
            i = i + 1;
        }
        proof {
            let views = column_views(columns@);
            assert forall|a: int| 0 <= a < views.len() implies (#[trigger] views[a]).name
                == cols[a].name && self@.is_card_listing(cols[a].id, views[a].cards) by {
                assert(views[a] == columns[a]@);
            }
            assert(self@.shows_columns(cols, views));
        }
        columns
    }

    /// Adds a column called `column_name` to board `board_id` unless the
    /// board has one, and gives an empty column of that name.
    ///
    /// The new column receives the order of the board's last column and so
    /// stands right of it.
    pub fn create_column_for_board(&mut self, board_id: u64, column_name: &str) -> (r: Result<
        Column,
        Error,
    >)
        requires
            old(self).wf(),
        ensures
            final(self).wf(),
            match r {
                Ok(column) => {
                    &&& column@.name == column_name@
                    &&& column@.cards.len() == 0
                    &&& old(self)@.add_column_error(board_id, column_name@) is None
                    &&& final(self)@ == old(self)@.ensure_column(board_id, column_name@)
                },
                Err(e) => old(self)@.add_column_error(board_id, column_name@) == Some(e)
                    && final(self)@ == old(self)@,
            },
    {
        if self.find_board(board_id).is_none() {
            return Err(Error::BoardNotFound);
        }
        if self.find_column(board_id, column_name).is_none() {
            if self.next_column_id == u64::MAX {
                return Err(Error::Exhausted);
            }
            let mut order: u64 = 0;
            let mut k: usize = 0;
            while k < self.columns.len()
                invariant
                    k <= self.columns.len(),
                    order == self@.max_order(board_id, k as int),
                decreases self.columns.len() - k,
            {
                if self.columns[k].board_id == board_id && self.columns[k].order > order {
                    order = self.columns[k].order;
                }
                k = k + 1;
            }
            proof {
                self@.lemma_add_column(board_id, column_name@);
            }
            let ghost pre = self@;
            let id = self.next_column_id;
            self.columns.push(ColumnRow { id, board_id, name: column_name.to_owned(), order });
            self.next_column_id = id + 1;
            assert(self@.columns =~= pre.add_column(board_id, column_name@).columns);
        }
        let column = Column { name: column_name.to_owned(), cards: Vec::new() };
        assert(column@.cards.len() == 0);
        Ok(column)
    }

    /// Loads board `board_id` with its columns and cards, and stamps it as
    /// viewed now.
    pub fn load_board(&mut self, board_id: u64) -> (r: Result<Board, Error>)
        requires
            old(self).wf(),
        ensures
            final(self).wf(),
            match r {
                Ok(board) => {
                    &&& old(self)@.view_board_error(board_id) is None
                    &&& final(self)@ == old(self)@.view_board(board_id)
                    &&& final(self)@.is_board_view(old(self)@.board(board_id), board@)
                },
                Err(e) => old(self)@.view_board_error(board_id) == Some(e) && final(self)@
                    == old(self)@,
            },
    {
        match self.find_board(board_id) {
            None => Err(Error::BoardNotFound),
            Some(b) => {
                if self.clock == u64::MAX {
                    return Err(Error::Exhausted);
                }
                let ghost pre = self@;
                proof {
                    pre.lemma_board_index(b as int);
                    pre.lemma_view_board(board_id);
                }
                let now = self.clock + 1;
                self.boards[b].viewed_at = now;
                self.clock = now;
                assert(self@.boards =~= pre.view_board(board_id).boards);
                let columns = self.get_cards_for_board(board_id);
                let board = Board { id: board_id, name: self.boards[b].name.clone(), columns };
                Ok(board)
            },
        }
    }

    /// The board that was viewed last, with its columns and cards; `None`
    /// where the store holds no board.
    pub fn load_most_recently_viewed_board(&self) -> (r: Option<Board>)
        requires
            self.wf(),
        ensures
            match r {
                Some(board) => exists|b: int|
                    #[trigger] self@.is_latest_board(b) && self@.is_board_view(
                        self@.boards[b],
                        board@,
                    ),
                None => self@.boards.len() == 0,
            },
    {
        if self.boards.len() == 0 {
            return None;
        }
        let mut best: usize = 0;
        let mut i: usize = 1;
        while i < self.boards.len()
            invariant
                self.wf(),
                1 <= i <= self.boards.len(),
                best < i,
                forall|j: int|
                    0 <= j < i && j != best ==> crate::tables::board_before(
                        self@.boards[best as int],
                        #[trigger] self@.boards[j],
                    ),
            decreases self.boards.len() - i,
        {
            if self.boards[i].viewed_at > self.boards[best].viewed_at {
                best = i;
            }
            i = i + 1;
        }
        let id = self.boards[best].id;
        let columns = self.get_cards_for_board(id);
        let board = Board { id, name: self.boards[best].name.clone(), columns };
        assert(self@.is_latest_board(best as int));
        Some(board)
    }

    /// The position of the leftmost column of board `board_id`.
    fn find_first_column(&self, board_id: u64) -> (r: Option<usize>)
        requires
            self.wf(),
        ensures
            match r {
                Some(k) => self@.is_first_column(k as int, board_id),
                None => !self@.has_any_column(board_id),
            },
    {
        let mut best: Option<usize> = None;
        let mut k: usize = 0;
        while k < self.columns.len()
            invariant
                self.wf(),
                k <= self.columns.len(),
                match best {
                    Some(w) => w < k && self@.columns[w as int].board_id == board_id && forall|
                        j: int,
                    |
                        0 <= j < k && j != w && #[trigger] self@.columns[j].board_id == board_id
                            ==> column_before(self@.columns[w as int], self@.columns[j]),
                    None => forall|j: int| 0 <= j < k ==> self@.columns[j].board_id != board_id,
                },
            decreases self.columns.len() - k,
        {
            if self.columns[k].board_id == board_id {
                match best {
                    None => {
                        best = Some(k);
                    },
                    Some(w) => {
                        assert(self@.columns[w as int].id < self@.columns[k as int].id);
                        if self.columns[k].order < self.columns[w].order {
                            best = Some(k);
                        }
                    },
                }
            }
            k = k + 1;
        }
        best
    }

    /// Adds a card to the leftmost column of board `board_id` and gives it.
    ///
    /// The card receives the next identity of the store and the next number
    /// of its board, in one step.
    pub fn insert_card(&mut self, board_id: u64, title: &str, body: &str) -> (r: Result<
        Card,
        Error,
    >)
        requires
            old(self).wf(),
        ensures
            final(self).wf(),
            match r {
                Ok(card) => {
                    &&& old(self)@.insert_card_error(board_id) is None
                    &&& final(self)@ == old(self)@.insert_card(board_id, title@, body@)
                    &&& card@ == card_view(old(self)@.new_card(board_id, title@, body@))
                },
                Err(e) => old(self)@.insert_card_error(board_id) == Some(e) && final(self)@
                    == old(self)@,
            },
    {
        let b = match self.find_board(board_id) {
            Some(b) => b,
            None => {
                return Err(Error::BoardNotFound);
            },
        };
        let k = match self.find_first_column(board_id) {
            Some(k) => k,
            None => {
                return Err(Error::ColumnNotFound);
            },
        };
        proof {
            self@.lemma_board_index(b as int);
            assert(self@.columns[k as int].board_id == board_id);
            assert(self@.has_any_column(board_id));
        }
        if self.next_card_id == u64::MAX || self.clock == u64::MAX || self.boards[b].next_number
            == u64::MAX {
            return Err(Error::Exhausted);
        }
        let ghost pre = self@;
        proof {
            pre.lemma_insert_card(board_id, title@, body@);
            pre.lemma_first_column(board_id);
            let w = pre.first_column(board_id);
            if w != k as int {
                assert(column_before(pre.columns[w], pre.columns[k as int]));
                assert(column_before(pre.columns[k as int], pre.columns[w]));
            }
        }
        let id = self.next_card_id;
        let number = self.boards[b].next_number;
        let now = self.clock + 1;
        let column_id = self.columns[k].id;
        self.cards.push(
            CardRow {
                id,
                board_id,
                column_id,
                number,
                title: title.to_owned(),
                body: body.to_owned(),
                inserted_at: now,
                updated_at: now,
            },
        );
        self.boards[b].next_number = number + 1;
        self.next_card_id = id + 1;
        self.clock = now;
        proof {
            assert(self@.boards =~= pre.insert_card(board_id, title@, body@).boards);
            assert(self@.cards =~= pre.insert_card(board_id, title@, body@).cards);
        }
        Ok(
            Card {
                id,
                number,
                title: title.to_owned(),
                body: body.to_owned(),
                inserted_at: now,
                updated_at: now,
            },
        )
    }

    /// Gives card `card_id` a new title and body, and returns the stamp that
    /// the card carries from now on.
    pub fn update_card(&mut self, card_id: u64, title: &str, body: &str) -> (r: Result<u64, Error>)
        requires
            old(self).wf(),
        ensures
            final(self).wf(),
            match r {
                Ok(stamp) => {
                    &&& old(self)@.update_card_error(card_id) is None
                    &&& final(self)@ == old(self)@.update_card(card_id, title@, body@)
                    &&& stamp == old(self)@.stamp()
                },
                Err(e) => old(self)@.update_card_error(card_id) == Some(e) && final(self)@
                    == old(self)@,
            },
    {
        let i = match self.find_card(card_id) {
            Some(i) => i,
            None => {
                return Err(Error::CardNotFound);
            },
        };
        if self.clock == u64::MAX {
            return Err(Error::Exhausted);
        }
        let ghost pre = self@;
        proof {
            pre.lemma_card_index(i as int);
            pre.lemma_update_card(card_id, title@, body@);
            assert(pre.has_board(pre.cards[i as int].board_id));
        }
        let now = self.clock + 1;
        match self.find_board(self.cards[i].board_id) {
            Some(b) => {
                proof {
                    pre.lemma_board_index(b as int);
                }
                self.boards[b].updated_at = now;
            },
            None => {},
        }
        self.cards[i].title = title.to_owned();
        self.cards[i].body = body.to_owned();
        self.cards[i].updated_at = now;
        self.clock = now;
        proof {
            assert(self@.boards =~= pre.update_card(card_id, title@, body@).boards);
            assert(self@.cards =~= pre.update_card(card_id, title@, body@).cards);
        }
        Ok(now)
    }

    /// Points card `card_id` to the column of board `board_id` called
    /// `column_name`.
    ///
    /// Nothing happens where the card does not exist, does not belong to the
    /// board, or the board has no column of that name.
    pub fn set_card_status(&mut self, board_id: u64, card_id: u64, column_name: &str) -> (r: Result<
        (),
        Error,
    >)
        requires
            old(self).wf(),
        ensures
            final(self).wf(),
            match r {
                Ok(_) => {
                    &&& old(self)@.set_card_status_error(board_id, card_id, column_name@) is None
                    &&& final(self)@ == old(self)@.set_card_status(board_id, card_id, column_name@)
                },
                Err(e) => old(self)@.set_card_status_error(board_id, card_id, column_name@)
                    == Some(e) && final(self)@ == old(self)@,
            },
    {
        let i = match self.find_card(card_id) {
            Some(i) => i,
            None => {
                return Ok(());
            },
        };
        proof {
            self@.lemma_card_index(i as int);
        }
        if self.cards[i].board_id != board_id {
            return Ok(());
        }
        let k = match self.find_column(board_id, column_name) {
            Some(k) => k,
            None => {
                return Ok(());
            },
        };
        if self.clock == u64::MAX {
            return Err(Error::Exhausted);
        }
        let ghost pre = self@;
        proof {
            pre.lemma_column_index(k as int);
            pre.lemma_move_card(board_id, card_id, column_name@);
            assert(pre.has_board(pre.cards[i as int].board_id));
        }
        let now = self.clock + 1;
        match self.find_board(board_id) {
            Some(b) => {
                proof {
                    pre.lemma_board_index(b as int);
                }
                self.boards[b].updated_at = now;
            },
            None => {},
        }
        self.cards[i].column_id = self.columns[k].id;
        self.cards[i].updated_at = now;
        self.clock = now;
        proof {
            assert(self@.boards =~= pre.move_card(board_id, card_id, column_name@).boards);
            assert(self@.cards =~= pre.move_card(board_id, card_id, column_name@).cards);
        }
        Ok(())
    }

    /// Removes card `card_id`, if there is one.
    pub fn delete_card(&mut self, card_id: u64)
        requires
            old(self).wf(),
        ensures
            final(self).wf(),
            final(self)@ == old(self)@.delete_card(card_id),
    {
        proof {
            self@.lemma_delete_card(card_id);
        }
        match self.find_card(card_id) {
            Some(i) => {
                let ghost pre = self@;
                proof {
                    pre.lemma_card_index(i as int);
                }
                let _ = self.cards.remove(i);
                assert(self@.cards =~= pre.delete_card(card_id).cards);
            },
            None => {},
        }
    }

    /// Whether board `board_id` has a column.
    fn board_has_column(&self, board_id: u64) -> (r: bool)
        ensures
            r == self@.has_any_column(board_id),
    {
        let mut k: usize = 0;
        while k < self.columns.len()
            invariant
                k <= self.columns.len(),
                forall|j: int| 0 <= j < k ==> self@.columns[j].board_id != board_id,
            decreases self.columns.len() - k,
        {
            if self.columns[k].board_id == board_id {
                assert(self@.columns[k as int].board_id == board_id);
                return true;
            }
            k = k + 1;
        }
        false
    }

    /// The names of the columns of board `board_id`, from left to right.
    fn column_names_of(&self, board_id: u64) -> (names: Vec<String>)
        requires
            self.wf(),
        ensures
            self@.is_column_names(board_id, name_views(names@)),
    {
        let (idx, Ghost(cols)) = self.ordered_columns(board_id);
        let mut names: Vec<String> = Vec::new();
        let mut i: usize = 0;
        while i < idx.len()
            invariant
                i <= idx.len(),
                idx.len() == cols.len(),
                names.len() == i,
                forall|a: int|
                    0 <= a < idx.len() ==> (#[trigger] idx[a]) < self@.columns.len()
                        && self@.columns[idx[a] as int] == cols[a],
                forall|a: int| 0 <= a < i ==> (#[trigger] names[a])@ == cols[a].name,
            decreases idx.len() - i,
        {
            names.push(self.columns[idx[i]].name.clone());
            i = i + 1;
        }
        assert(column_names(cols) =~= name_views(names@));
        names
    }

    /// The summaries of the boards that have a column, the board viewed last
    /// first.
    pub fn get_board_metas(&self) -> (metas: Vec<BoardMeta>)
        requires
            self.wf(),
        ensures
            self@.is_board_listing(meta_views(metas@)),
    {
        let mut sel: Vec<usize> = Vec::new();
        let mut keys: Vec<(u64, u64)> = Vec::new();
        let mut b: usize = 0;
        while b < self.boards.len()
            invariant
                self.wf(),
                b <= self.boards.len(),
                sel.len() == keys.len(),
                forall|s: int|
                    0 <= s < sel.len() ==> (#[trigger] sel[s]) < b && self@.has_any_column(
                        self@.boards[sel[s] as int].id,
                    ) && keys[s] == (
                        (u64::MAX - self@.boards[sel[s] as int].viewed_at) as u64,
                        self@.boards[sel[s] as int].id,
                    ),
                forall|x: int, y: int| 0 <= x < y < sel.len() ==> sel[x] < sel[y],
                forall|j: usize|
                    j < b && self@.has_any_column((#[trigger] self@.boards[j as int]).id)
                        ==> sel@.contains(j),
            decreases self.boards.len() - b,
        {
            if self.board_has_column(self.boards[b].id) {
                let ghost before = sel@;
                sel.push(b);
                keys.push((u64::MAX - self.boards[b].viewed_at, self.boards[b].id));
                proof {
                    assert forall|j: usize|
                        j < b + 1 && self@.has_any_column(
                            (#[trigger] self@.boards[j as int]).id,
                        ) implies sel@.contains(j) by {
                        if j == b {
                            assert(sel@[sel.len() - 1] == j);
                        } else {
                            assert(before.contains(j));
                            let w = choose|w: int| 0 <= w < before.len() && before[w] == j;
                            assert(sel@[w] == j);
                        }
                    }
                }
            }
            b = b + 1;
        }
        assert forall|x: int, y: int| 0 <= x < y < keys.len() implies keys[x] != keys[y] by {
            assert(sel[x] < sel[y]);
            assert(self@.boards[sel[x] as int].id < self@.boards[sel[y] as int].id);
        }
        let out = rising(&keys);
        let mut metas: Vec<BoardMeta> = Vec::new();
        let mut i: usize = 0;
        while i < out.len()
            invariant
                self.wf(),
                i <= out.len(),
                is_rising(keys@, out@),
                sel.len() == keys.len(),
                metas.len() == i,
                forall|s: int|
                    0 <= s < sel.len() ==> (#[trigger] sel[s]) < self.boards.len(),
                forall|a: int|
                    0 <= a < i ==> self@.is_meta(
                        self@.boards[sel[out[a] as int] as int],
                        (#[trigger] metas[a])@,
                    ),
            decreases out.len() - i,
        {
            let row = &self.boards[sel[out[i]]];
            let columns = self.column_names_of(row.id);
            metas.push(
                BoardMeta {
                    id: row.id,
                    name: row.name.clone(),
                    columns,
                    inserted_at: row.inserted_at,
                    updated_at: row.updated_at,
                    viewed_at: row.viewed_at,
                },
            );
            i = i + 1;
        }
        proof {
            let views = meta_views(metas@);
            assert forall|a: int| 0 <= a < views.len() implies self@.has_meta(
                #[trigger] views[a],
            ) by {
                let w = sel[out[a] as int] as int;
                assert(views[a] == metas[a]@);
                assert(self@.has_any_column(self@.boards[w].id));
                assert(self@.is_meta(self@.boards[w], views[a]));
                self@.lemma_has_meta(w, views[a]);
            }
            assert forall|j: int|
                0 <= j < self@.boards.len() && self@.has_any_column(
                    (#[trigger] self@.boards[j]).id,
                ) implies exists|a: int|
                0 <= a < views.len() && (#[trigger] views[a]).id == self@.boards[j].id by {
                assert(sel@.contains(j as usize));
                let s = choose|s: int| 0 <= s < sel.len() && sel[s] == j as usize;
                assert(out@.contains(s as usize));
                let a = choose|a: int| 0 <= a < out.len() && out[a] == s as usize;
                assert(views[a] == metas[a]@);
                assert(self@.is_meta(self@.boards[sel[out[a] as int] as int], metas[a]@));
            }
            assert forall|x: int, y: int| 0 <= x < y < views.len() implies crate::tables::meta_before(
                views[x],
                views[y],
            ) by {
                assert(views[x] == metas[x]@);
                assert(views[y] == metas[y]@);
                assert(self@.is_meta(self@.boards[sel[out[x] as int] as int], metas[x]@));
                assert(self@.is_meta(self@.boards[sel[out[y] as int] as int], metas[y]@));
                assert(crate::order::key_before(keys[out[x] as int], keys[out[y] as int]));
            }
        }
        metas
    }

    /// Renames board `board_id` to `board_name` and places its columns as
    /// `column_names` lists them: a column that the board has moves to the
    /// place its name has in the list, a name the board lacks becomes a new
    /// column there. Columns that the list leaves out stay as they are. The
    /// board is then loaded, which stamps it as viewed, and handed out.
    ///
    /// The board must exist, the name must not be that of another board,
    /// and there must be as many identities left as names are given, and a
    /// stamp. Where the request is refused the store stays as it is.
    pub fn update_board_columns_order(
        &mut self,
        board_id: u64,
        board_name: &str,
        column_names: &[&str],
    ) -> (r: Result<Board, Error>)
        requires
            old(self).wf(),
        ensures
            final(self).wf(),
            match r {
                Ok(board) => {
                    &&& old(self)@.reorder_error(board_id, board_name@, column_names@.len())
                        is None
                    &&& final(self)@ == old(self)@.reorder(
                        board_id,
                        board_name@,
                        views(column_names@),
                    )
                    &&& board@.id == board_id
                    &&& board@.name == board_name@
                    &&& final(self)@.is_columns_of(board_id, board@.columns)
                },
                Err(e) => old(self)@.reorder_error(board_id, board_name@, column_names@.len())
                    == Some(e) && final(self)@ == old(self)@,
            },
    {
        let b = match self.find_board(board_id) {
            Some(b) => b,
            None => {
                return Err(Error::BoardNotFound);
            },
        };
        proof {
            self@.lemma_board_index(b as int);
        }
        match self.find_board_named(board_name) {
            Some(o) => {
                proof {
                    self@.lemma_board_named_index(o as int);
                }
                if self.boards[o].id != board_id {
                    return Err(Error::DuplicateBoardName);
                }
            },
            None => {},
        }
        let n = column_names.len();
        if u64::MAX - self.next_column_id < n as u64 || self.clock == u64::MAX {
            return Err(Error::Exhausted);
        }
        let ghost pre = self@;
        let ghost names = views(column_names@);
        proof {
            assert(names.len() == n);
            pre.lemma_rearrange(board_id, board_name@, names);
        }
        let mut i: usize = 0;
        while i < n
            invariant
                pre.wf(),
                pre.has_board(board_id),
                pre.next_column_id + n <= u64::MAX,
                n == column_names.len(),
                names == views(column_names@),
                i <= n,
                self@ == pre.place_columns(board_id, names, i as int),
            decreases n - i,
        {
            let ghost step = self@;
            proof {
                pre.lemma_place_columns(board_id, names, i as int);
                assert(step.has_board(board_id));
                assert(names[i as int] == column_names[i as int]@);
            }
            match self.find_column(board_id, column_names[i]) {
                Some(k) => {
                    proof {
                        step.lemma_column_index(k as int);
                    }
                    self.columns[k].order = i as u64;
                    assert(self@.columns =~= step.place_column(
                        board_id,
                        names[i as int],
                        i as u64,
                    ).columns);
                },
                None => {
                    let id = self.next_column_id;
                    self.columns.push(
                        ColumnRow {
                            id,
                            board_id,
                            name: column_names[i].to_owned(),
                            order: i as u64,
                        },
                    );
                    self.next_column_id = id + 1;
                    assert(self@.columns =~= step.place_column(
                        board_id,
                        names[i as int],
                        i as u64,
                    ).columns);
                },
            }
            i = i + 1;
        }
        proof {
            pre.lemma_place_columns(board_id, names, n as int);
        }
        self.boards[b].name = board_name.to_owned();
        assert(self@.boards =~= pre.rearrange(board_id, board_name@, names).boards);
        assert(self@ == pre.rearrange(board_id, board_name@, names));
        self.load_board(board_id)
    }

    /// The position of the board with identity `id`.
    fn find_board(&self, id: u64) -> (r: Option<usize>)
        ensures
            match r {
                Some(i) => i < self@.boards.len() && self@.boards[i as int].id == id,
                None => !self@.has_board(id),
            },
    {
        let mut i: usize = 0;
        while i < self.boards.len()
            invariant
                i <= self.boards.len(),
                forall|k: int| 0 <= k < i ==> self@.boards[k].id != id,
            decreases self.boards.len() - i,
        {
            if self.boards[i].id == id {
                return Some(i);
            }
            i = i + 1;
        }
        None
    }

    /// The position of the board called `name`.
    fn find_board_named(&self, name: &str) -> (r: Option<usize>)
        ensures
            match r {
                Some(i) => i < self@.boards.len() && self@.boards[i as int].name == name@,
                None => !self@.has_board_named(name@),
            },
    {
        let mut i: usize = 0;
        while i < self.boards.len()
            invariant
                i <= self.boards.len(),
                forall|k: int| 0 <= k < i ==> self@.boards[k].name != name@,
            decreases self.boards.len() - i,
        {
            if same_text(self.boards[i].name.as_str(), name) {
                return Some(i);
            }
            i = i + 1;
        }
        None
    }

    /// The position of the column of `board_id` called `name`.
    fn find_column(&self, board_id: u64, name: &str) -> (r: Option<usize>)
        ensures
            match r {
                Some(k) => self@.is_column_of(k as int, board_id, name@),
                None => !self@.has_column(board_id, name@),
            },
    {
        let mut k: usize = 0;
        while k < self.columns.len()
            invariant
                k <= self.columns.len(),
                forall|j: int| 0 <= j < k ==> !self@.is_column_of(j, board_id, name@),
            decreases self.columns.len() - k,
        {
            if self.columns[k].board_id == board_id && same_text(
                self.columns[k].name.as_str(),
                name,
            ) {
                return Some(k);
            }
            k = k + 1;
        }
        None
    }

    /// The position of the card with identity `id`.
    fn find_card(&self, id: u64) -> (r: Option<usize>)
        ensures
            match r {
                Some(i) => i < self@.cards.len() && self@.cards[i as int].id == id,
                None => !self@.has_card(id),
            },
    {
        let mut i: usize = 0;
        while i < self.cards.len()
            invariant
                i <= self.cards.len(),
                forall|k: int| 0 <= k < i ==> self@.cards[k].id != id,
            decreases self.cards.len() - i,
        {
            if self.cards[i].id == id {
                return Some(i);
            }
            i = i + 1;
        }
        None
    }
}

} // verus!
