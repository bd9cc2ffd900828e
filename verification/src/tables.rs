//! The mathematical model of the store: three tables of rows, the counters
//! that hand out identities, and a clock.
//!
//! Every operation of the store is stated here as a function from tables to
//! tables; the executable store is proved to follow them.

use vstd::prelude::*;
use crate::board::{BoardMetaView, BoardView, CardView, ColumnView};
use crate::error::Error;

verus! {

/// One board, as the store keeps it.
pub struct BoardRec {
    pub id: u64,
    pub name: Seq<char>,
    /// The number that the next card of this board receives.
    pub next_number: u64,
    pub inserted_at: u64,
    pub updated_at: u64,
    pub viewed_at: u64,
}

/// One column of one board.
pub struct ColumnRec {
    pub id: u64,
    pub board_id: u64,
    pub name: Seq<char>,
    /// Where the column stands among those of its board; smaller is further left.
    pub order: u64,
}

/// One card.
pub struct CardRec {
    /// The identity that is unique over all boards.
    pub id: u64,
    pub board_id: u64,
    pub column_id: u64,
    /// The identity within the card's board, counted from 1.
    pub number: u64,
    pub title: Seq<char>,
    pub body: Seq<char>,
    pub inserted_at: u64,
    pub updated_at: u64,
}

/// The whole state of the store.
pub struct Tables {
    pub boards: Seq<BoardRec>,
    pub columns: Seq<ColumnRec>,
    pub cards: Seq<CardRec>,
    pub next_board_id: u64,
    pub next_column_id: u64,
    pub next_card_id: u64,
    pub clock: u64,
}

/// The name of the board that a fresh store starts with.
pub open spec fn default_board_name() -> Seq<char> {
    "my great board"@
}

/// Column `a` stands left of column `b`: by order first, by identity among
/// equal orders.
pub open spec fn column_before(a: ColumnRec, b: ColumnRec) -> bool {
    a.order < b.order || (a.order == b.order && a.id < b.id)
}

/// Board `a` is listed before board `b`: the one viewed later comes first,
/// and among boards viewed at the same time the older one.
pub open spec fn board_before(a: BoardRec, b: BoardRec) -> bool {
    a.viewed_at > b.viewed_at || (a.viewed_at == b.viewed_at && a.id < b.id)
}

/// No two entries of `names` are equal.
pub open spec fn distinct_names(names: Seq<Seq<char>>) -> bool {
    forall|i: int, j: int| 0 <= i < j < names.len() ==> names[i] != names[j]
}

impl Tables {
    /// A store without any row.
    pub open spec fn empty() -> Tables {
        Tables {
            boards: Seq::empty(),
            columns: Seq::empty(),
            cards: Seq::empty(),
            next_board_id: 1,
            next_column_id: 1,
            next_card_id: 1,
            clock: 0,
        }
    }

    pub open spec fn has_board(self, id: u64) -> bool {
        exists|i: int| 0 <= i < self.boards.len() && #[trigger] self.boards[i].id == id
    }

    /// The position of the board with identity `id`.
    pub open spec fn board_index(self, id: u64) -> int {
        choose|i: int| 0 <= i < self.boards.len() && #[trigger] self.boards[i].id == id
    }

    pub open spec fn board(self, id: u64) -> BoardRec {
        self.boards[self.board_index(id)]
    }

    pub open spec fn has_board_named(self, name: Seq<char>) -> bool {
        exists|i: int| 0 <= i < self.boards.len() && #[trigger] self.boards[i].name == name
    }

    /// The position of the board called `name`.
    pub open spec fn board_named_index(self, name: Seq<char>) -> int {
        choose|i: int| 0 <= i < self.boards.len() && #[trigger] self.boards[i].name == name
    }

    pub open spec fn is_column_of(self, k: int, board_id: u64, name: Seq<char>) -> bool {
        0 <= k < self.columns.len() && self.columns[k].board_id == board_id
            && self.columns[k].name == name
    }

    pub open spec fn has_column(self, board_id: u64, name: Seq<char>) -> bool {
        exists|k: int| #[trigger] self.is_column_of(k, board_id, name)
    }

    /// The position of the column of `board_id` called `name`.
    pub open spec fn column_index(self, board_id: u64, name: Seq<char>) -> int {
        choose|k: int| #[trigger] self.is_column_of(k, board_id, name)
    }

    pub open spec fn has_any_column(self, board_id: u64) -> bool {
        exists|k: int| 0 <= k < self.columns.len() && #[trigger] self.columns[k].board_id == board_id
    }

    pub open spec fn has_card(self, id: u64) -> bool {
        exists|i: int| 0 <= i < self.cards.len() && #[trigger] self.cards[i].id == id
    }

    /// The position of the card with identity `id`.
    pub open spec fn card_index(self, id: u64) -> int {
        choose|i: int| 0 <= i < self.cards.len() && #[trigger] self.cards[i].id == id
    }

    /// The column that card `c` points to exists and belongs to the card's board.
    pub open spec fn card_column_exists(self, c: CardRec) -> bool {
        exists|k: int|
            0 <= k < self.columns.len() && #[trigger] self.columns[k].id == c.column_id
                && self.columns[k].board_id == c.board_id
    }

    /// Some card of these tables belongs to the same board and column as `c`.
    pub open spec fn has_card_like(self, c: CardRec) -> bool {
        exists|j: int|
            0 <= j < self.cards.len() && (#[trigger] self.cards[j]).board_id == c.board_id
                && self.cards[j].column_id == c.column_id
    }

    /// Identities rise along each table and stay below the counters.
    pub open spec fn ids_ordered(self) -> bool {
        &&& forall|i: int, j: int|
            0 <= i < j < self.boards.len() ==> self.boards[i].id < self.boards[j].id
        &&& forall|i: int|
            0 <= i < self.boards.len() ==> 1 <= #[trigger] self.boards[i].id < self.next_board_id
        &&& forall|i: int, j: int|
            0 <= i < j < self.columns.len() ==> self.columns[i].id < self.columns[j].id
        &&& forall|i: int|
            0 <= i < self.columns.len() ==> 1 <= #[trigger] self.columns[i].id
                < self.next_column_id
        &&& forall|i: int, j: int|
            0 <= i < j < self.cards.len() ==> self.cards[i].id < self.cards[j].id
        &&& forall|i: int|
            0 <= i < self.cards.len() ==> 1 <= #[trigger] self.cards[i].id < self.next_card_id
        &&& self.next_board_id >= 1
        &&& self.next_column_id >= 1
        &&& self.next_card_id >= 1
    }

    /// No two boards share a name; no two columns of one board share a name.
    pub open spec fn names_unique(self) -> bool {
        &&& forall|i: int, j: int|
            0 <= i < j < self.boards.len() ==> self.boards[i].name != self.boards[j].name
        &&& forall|i: int, j: int|
            0 <= i < j < self.columns.len() && self.columns[i].board_id
                == self.columns[j].board_id ==> self.columns[i].name != self.columns[j].name
    }

    /// Every column belongs to a board; every card belongs to a board and
    /// points to a column of that board.
    pub open spec fn references_hold(self) -> bool {
        &&& forall|k: int|
            0 <= k < self.columns.len() ==> self.has_board(#[trigger] self.columns[k].board_id)
        &&& forall|i: int|
            0 <= i < self.cards.len() ==> self.has_board(#[trigger] self.cards[i].board_id)
        &&& forall|i: int|
            0 <= i < self.cards.len() ==> self.card_column_exists(#[trigger] self.cards[i])
    }

    /// Within a board the numbers of the cards start at 1, rise with the
    /// cards' identities, and stay below the board's counter.
    pub open spec fn numbers_ordered(self) -> bool {
        &&& forall|b: int| 0 <= b < self.boards.len() ==> #[trigger] self.boards[b].next_number >= 1
        &&& forall|i: int| 0 <= i < self.cards.len() ==> #[trigger] self.cards[i].number >= 1
        &&& forall|i: int, b: int|
            0 <= i < self.cards.len() && 0 <= b < self.boards.len() && #[trigger] self.cards[i].board_id
                == #[trigger] self.boards[b].id ==> self.cards[i].number < self.boards[b].next_number
        &&& forall|i: int, j: int|
            0 <= i < j < self.cards.len() && self.cards[i].board_id == self.cards[j].board_id
                ==> self.cards[i].number < self.cards[j].number
    }

    /// No row is stamped later than the clock shows.
    pub open spec fn stamps_bounded(self) -> bool {
        &&& forall|i: int|
            0 <= i < self.boards.len() ==> (#[trigger] self.boards[i]).inserted_at <= self.clock
                && self.boards[i].updated_at <= self.clock && self.boards[i].viewed_at
                <= self.clock
        &&& forall|i: int|
            0 <= i < self.cards.len() ==> (#[trigger] self.cards[i]).inserted_at <= self.clock
                && self.cards[i].updated_at <= self.clock
    }

    /// The tables are consistent.
    pub open spec fn wf(self) -> bool {
        &&& self.ids_ordered()
        &&& self.names_unique()
        &&& self.references_hold()
        &&& self.numbers_ordered()
        &&& self.stamps_bounded()
    }
}

/// What the store does, as functions from tables to tables.
impl Tables {
    /// The stamp that the next change receives.
    pub open spec fn stamp(self) -> u64 {
        (self.clock + 1) as u64
    }

    /// The clock is moved forward to `now`; it never moves back.
    pub open spec fn set_time(self, now: u64) -> Tables {
        Tables { clock: if now > self.clock { now } else { self.clock }, ..self }
    }

    /// The row that a new board called `name` receives.
    pub open spec fn new_board(self, name: Seq<char>) -> BoardRec {
        BoardRec {
            id: self.next_board_id,
            name,
            next_number: 1,
            inserted_at: self.stamp(),
            updated_at: self.stamp(),
            viewed_at: self.stamp(),
        }
    }

    /// A board called `name` is added, without columns.
    pub open spec fn add_board(self, name: Seq<char>) -> Tables {
        Tables {
            boards: self.boards.push(self.new_board(name)),
            next_board_id: (self.next_board_id + 1) as u64,
            clock: self.stamp(),
            ..self
        }
    }

    /// Whether a board and `n` columns can still be given identities and a stamp.
    pub open spec fn can_add_board(self, n: nat) -> bool {
        self.next_board_id < u64::MAX && self.clock < u64::MAX && self.next_column_id + n
            <= u64::MAX
    }

    /// The rows that new columns called `names` receive in board `board_id`:
    /// consecutive identities, and orders counted from 0.
    pub open spec fn new_columns(self, board_id: u64, names: Seq<Seq<char>>) -> Seq<ColumnRec> {
        Seq::new(
            names.len(),
            |i: int|
                ColumnRec {
                    id: (self.next_column_id + i) as u64,
                    board_id,
                    name: names[i],
                    order: i as u64,
                },
        )
    }

    /// Why `create_board` refuses, if it does.
    pub open spec fn create_board_error(self, name: Seq<char>, names: Seq<Seq<char>>) -> Option<
        Error,
    > {
        if names.len() == 0 {
            Some(Error::NoColumns)
        } else if self.has_board_named(name) {
            Some(Error::DuplicateBoardName)
        } else if !distinct_names(names) {
            Some(Error::DuplicateColumnName)
        } else if !self.can_add_board(names.len()) {
            Some(Error::Exhausted)
        } else {
            None
        }
    }

    /// A board called `name` is added together with its columns.
    pub open spec fn create_board(self, name: Seq<char>, names: Seq<Seq<char>>) -> Tables {
        Tables {
            columns: self.columns + self.new_columns(self.next_board_id, names),
            next_column_id: (self.next_column_id + names.len()) as u64,
            ..self.add_board(name)
        }
    }

    /// The largest order among the columns of `board_id` within the first `n`
    /// columns, or 0 where the board has none there.
    pub open spec fn max_order(self, board_id: u64, n: int) -> u64
        decreases n,
    {
        if n <= 0 || n > self.columns.len() {
            0
        } else {
            let rest = self.max_order(board_id, n - 1);
            let c = self.columns[n - 1];
            if c.board_id == board_id && c.order > rest {
                c.order
            } else {
                rest
            }
        }
    }

    /// A column called `name` is added to board `board_id`, at the order of
    /// the board's last column.
    pub open spec fn add_column(self, board_id: u64, name: Seq<char>) -> Tables {
        Tables {
            columns: self.columns.push(
                ColumnRec {
                    id: self.next_column_id,
                    board_id,
                    name,
                    order: self.max_order(board_id, self.columns.len() as int),
                },
            ),
            next_column_id: (self.next_column_id + 1) as u64,
            ..self
        }
    }

    /// Why `create_column_for_board` refuses, if it does.
    pub open spec fn add_column_error(self, board_id: u64, name: Seq<char>) -> Option<Error> {
        if !self.has_board(board_id) {
            Some(Error::BoardNotFound)
        } else if !self.has_column(board_id, name) && self.next_column_id == u64::MAX {
            Some(Error::Exhausted)
        } else {
            None
        }
    }

    /// A column called `name` is added to board `board_id` unless the board
    /// has one.
    pub open spec fn ensure_column(self, board_id: u64, name: Seq<char>) -> Tables {
        if self.has_column(board_id, name) {
            self
        } else {
            self.add_column(board_id, name)
        }
    }

    /// Why `insert_board` refuses, if it does.
    pub open spec fn ensure_board_error(self, name: Seq<char>) -> Option<Error> {
        if !self.has_board_named(name) && (self.next_board_id == u64::MAX || self.clock
            == u64::MAX) {
            Some(Error::Exhausted)
        } else {
            None
        }
    }

    /// A board called `name` is added unless there is one.
    pub open spec fn ensure_board(self, name: Seq<char>) -> Tables {
        if self.has_board_named(name) {
            self
        } else {
            self.add_board(name)
        }
    }

    /// Why `load_board` refuses, if it does.
    pub open spec fn view_board_error(self, id: u64) -> Option<Error> {
        if !self.has_board(id) {
            Some(Error::BoardNotFound)
        } else if self.clock == u64::MAX {
            Some(Error::Exhausted)
        } else {
            None
        }
    }

    /// Why `update_card` refuses, if it does.
    pub open spec fn update_card_error(self, id: u64) -> Option<Error> {
        if !self.has_card(id) {
            Some(Error::CardNotFound)
        } else if self.clock == u64::MAX {
            Some(Error::Exhausted)
        } else {
            None
        }
    }

    /// Why `set_card_status` refuses, if it does.
    pub open spec fn set_card_status_error(
        self,
        board_id: u64,
        card_id: u64,
        name: Seq<char>,
    ) -> Option<Error> {
        if self.can_move_card(board_id, card_id, name) && self.clock == u64::MAX {
            Some(Error::Exhausted)
        } else {
            None
        }
    }

    /// Card `card_id` is pointed to the column of `board_id` called `name`,
    /// where there is anything to do.
    pub open spec fn set_card_status(self, board_id: u64, card_id: u64, name: Seq<char>) -> Tables {
        if self.can_move_card(board_id, card_id, name) {
            self.move_card(board_id, card_id, name)
        } else {
            self
        }
    }

    /// The tables after `load_board`, whether it refuses or not.
    pub open spec fn view_board_result(self, id: u64) -> Tables {
        if self.view_board_error(id) is None {
            self.view_board(id)
        } else {
            self
        }
    }

    /// The tables after `create_board`, whether it refuses or not.
    pub open spec fn create_board_result(self, name: Seq<char>, names: Seq<Seq<char>>) -> Tables {
        if self.create_board_error(name, names) is None {
            self.create_board(name, names)
        } else {
            self
        }
    }

    /// The tables after `create_column_for_board`, whether it refuses or not.
    pub open spec fn ensure_column_result(self, board_id: u64, name: Seq<char>) -> Tables {
        if self.add_column_error(board_id, name) is None {
            self.ensure_column(board_id, name)
        } else {
            self
        }
    }

    /// The tables after `set_card_status`, whether it refuses or not.
    pub open spec fn set_card_status_result(
        self,
        board_id: u64,
        card_id: u64,
        name: Seq<char>,
    ) -> Tables {
        if self.set_card_status_error(board_id, card_id, name) is None {
            self.set_card_status(board_id, card_id, name)
        } else {
            self
        }
    }

    /// The tables after `update_board_columns_order`, whether it refuses or
    /// not.
    pub open spec fn reorder_result(
        self,
        board_id: u64,
        name: Seq<char>,
        names: Seq<Seq<char>>,
    ) -> Tables {
        if self.reorder_error(board_id, name, names.len()) is None {
            self.reorder(board_id, name, names)
        } else {
            self
        }
    }

    /// The tables after `insert_card`, whether it refuses or not.
    pub open spec fn insert_card_result(
        self,
        board_id: u64,
        title: Seq<char>,
        body: Seq<char>,
    ) -> Tables {
        if self.insert_card_error(board_id) is None {
            self.insert_card(board_id, title, body)
        } else {
            self
        }
    }

    /// The tables after `update_card`, whether it refuses or not.
    pub open spec fn update_card_result(self, id: u64, title: Seq<char>, body: Seq<char>) -> Tables {
        if self.update_card_error(id) is None {
            self.update_card(id, title, body)
        } else {
            self
        }
    }

    /// Board `id` is stamped as viewed now.
    pub open spec fn view_board(self, id: u64) -> Tables {
        let i = self.board_index(id);
        Tables {
            boards: self.boards.update(i, BoardRec { viewed_at: self.stamp(), ..self.boards[i] }),
            clock: self.stamp(),
            ..self
        }
    }

    /// Column `k` is the leftmost column of board `board_id`.
    pub open spec fn is_first_column(self, k: int, board_id: u64) -> bool {
        &&& 0 <= k < self.columns.len()
        &&& self.columns[k].board_id == board_id
        &&& forall|j: int|
            0 <= j < self.columns.len() && j != k && #[trigger] self.columns[j].board_id == board_id
                ==> column_before(self.columns[k], self.columns[j])
    }

    /// The position of the leftmost column of board `board_id`.
    pub open spec fn first_column(self, board_id: u64) -> int {
        choose|k: int| self.is_first_column(k, board_id)
    }

    /// Why `insert_card` refuses, if it does.
    pub open spec fn insert_card_error(self, board_id: u64) -> Option<Error> {
        if !self.has_board(board_id) {
            Some(Error::BoardNotFound)
        } else if !self.has_any_column(board_id) {
            Some(Error::ColumnNotFound)
        } else if self.next_card_id == u64::MAX || self.clock == u64::MAX || self.board(
            board_id,
        ).next_number == u64::MAX {
            Some(Error::Exhausted)
        } else {
            None
        }
    }

    /// The row that a new card of board `board_id` receives.
    pub open spec fn new_card(self, board_id: u64, title: Seq<char>, body: Seq<char>) -> CardRec {
        CardRec {
            id: self.next_card_id,
            board_id,
            column_id: self.columns[self.first_column(board_id)].id,
            number: self.board(board_id).next_number,
            title,
            body,
            inserted_at: self.stamp(),
            updated_at: self.stamp(),
        }
    }

    /// A card is added to the leftmost column of board `board_id`, and the
    /// board's counter moves on.
    pub open spec fn insert_card(self, board_id: u64, title: Seq<char>, body: Seq<char>) -> Tables {
        let b = self.board_index(board_id);
        Tables {
            boards: self.boards.update(
                b,
                BoardRec {
                    next_number: (self.boards[b].next_number + 1) as u64,
                    ..self.boards[b]
                },
            ),
            cards: self.cards.push(self.new_card(board_id, title, body)),
            next_card_id: (self.next_card_id + 1) as u64,
            clock: self.stamp(),
            ..self
        }
    }

    /// The board at position `b` is stamped as changed now.
    pub open spec fn touch_board(self, b: int) -> Seq<BoardRec> {
        self.boards.update(b, BoardRec { updated_at: self.stamp(), ..self.boards[b] })
    }

    /// Card `id` receives a new title and body; the card and its board are
    /// stamped as changed now.
    pub open spec fn update_card(self, id: u64, title: Seq<char>, body: Seq<char>) -> Tables {
        let i = self.card_index(id);
        let b = self.board_index(self.cards[i].board_id);
        Tables {
            boards: self.touch_board(b),
            cards: self.cards.update(
                i,
                CardRec { title, body, updated_at: self.stamp(), ..self.cards[i] },
            ),
            clock: self.stamp(),
            ..self
        }
    }

    /// Whether `set_card_status` has anything to do: the card exists, belongs
    /// to the board, and the board has a column of that name.
    pub open spec fn can_move_card(self, board_id: u64, card_id: u64, name: Seq<char>) -> bool {
        self.has_card(card_id) && self.cards[self.card_index(card_id)].board_id == board_id
            && self.has_column(board_id, name)
    }

    /// Card `card_id` is pointed to the column of `board_id` called `name`;
    /// the card and its board are stamped as changed now.
    pub open spec fn move_card(self, board_id: u64, card_id: u64, name: Seq<char>) -> Tables {
        let i = self.card_index(card_id);
        let b = self.board_index(board_id);
        let k = self.column_index(board_id, name);
        Tables {
            boards: self.touch_board(b),
            cards: self.cards.update(
                i,
                CardRec { column_id: self.columns[k].id, updated_at: self.stamp(), ..self.cards[i] },
            ),
            clock: self.stamp(),
            ..self
        }
    }

    /// The column of `board_id` called `name` is placed at `order`: an
    /// existing column is moved there, a missing one is added there.
    pub open spec fn place_column(self, board_id: u64, name: Seq<char>, order: u64) -> Tables {
        if self.has_column(board_id, name) {
            let k = self.column_index(board_id, name);
            Tables { columns: self.columns.update(k, ColumnRec { order, ..self.columns[k] }), ..self }
        } else {
            Tables {
                columns: self.columns.push(
                    ColumnRec { id: self.next_column_id, board_id, name, order },
                ),
                next_column_id: (self.next_column_id + 1) as u64,
                ..self
            }
        }
    }

    /// The first `n` of `names` are placed, one after the other, each at the
    /// order that its position in `names` gives.
    pub open spec fn place_columns(self, board_id: u64, names: Seq<Seq<char>>, n: int) -> Tables
        decreases n,
    {
        if n <= 0 {
            self
        } else {
            self.place_columns(board_id, names, n - 1).place_column(
                board_id,
                names[n - 1],
                (n - 1) as u64,
            )
        }
    }

    /// Why `update_board_columns_order` refuses, if it does.
    pub open spec fn reorder_error(self, board_id: u64, name: Seq<char>, n: nat) -> Option<Error> {
        if !self.has_board(board_id) {
            Some(Error::BoardNotFound)
        } else if self.has_board_named(name) && self.boards[self.board_named_index(name)].id
            != board_id {
            Some(Error::DuplicateBoardName)
        } else if self.next_column_id + n > u64::MAX || self.clock == u64::MAX {
            Some(Error::Exhausted)
        } else {
            None
        }
    }

    /// Board `board_id` is renamed to `name` and its columns are placed as
    /// `names` lists them.
    pub open spec fn rearrange(
        self,
        board_id: u64,
        name: Seq<char>,
        names: Seq<Seq<char>>,
    ) -> Tables {
        let t = self.place_columns(board_id, names, names.len() as int);
        let b = self.board_index(board_id);
        Tables { boards: self.boards.update(b, BoardRec { name, ..self.boards[b] }), ..t }
    }

    /// Board `board_id` is renamed to `name`, its columns are placed as
    /// `names` lists them, and the board is stamped as viewed now.
    pub open spec fn reorder(self, board_id: u64, name: Seq<char>, names: Seq<Seq<char>>) -> Tables {
        self.rearrange(board_id, name, names).view_board(board_id)
    }

    /// Card `id` is removed, if there is one.
    pub open spec fn delete_card(self, id: u64) -> Tables {
        if self.has_card(id) {
            Tables { cards: self.cards.remove(self.card_index(id)), ..self }
        } else {
            self
        }
    }
}

/// What a card row shows of itself.
pub open spec fn card_view(c: CardRec) -> CardView {
    CardView {
        id: c.id,
        number: c.number,
        title: c.title,
        body: c.body,
        inserted_at: c.inserted_at,
        updated_at: c.updated_at,
    }
}

/// The names of a list of columns.
pub open spec fn column_names(cols: Seq<ColumnRec>) -> Seq<Seq<char>> {
    cols.map_values(|c: ColumnRec| c.name)
}

/// Summary `a` is listed before summary `b`: the board viewed later comes
/// first, and among boards viewed at the same time the older one.
pub open spec fn meta_before(a: BoardMetaView, b: BoardMetaView) -> bool {
    a.viewed_at > b.viewed_at || (a.viewed_at == b.viewed_at && a.id < b.id)
}

/// What the store answers, as relations between tables and answers.
impl Tables {
    /// `cards` are the cards of column `column_id`, newest first.
    pub open spec fn is_card_listing(self, column_id: u64, cards: Seq<CardView>) -> bool {
        &&& forall|i: int|
            0 <= i < cards.len() ==> self.has_card_in(column_id, #[trigger] cards[i])
        &&& forall|j: int|
            0 <= j < self.cards.len() && (#[trigger] self.cards[j]).column_id == column_id
                ==> cards.contains(card_view(self.cards[j]))
        &&& forall|i: int, j: int| 0 <= i < j < cards.len() ==> cards[i].id > cards[j].id
    }

    /// Column `column_id` holds a card that shows itself as `card`.
    pub open spec fn has_card_in(self, column_id: u64, card: CardView) -> bool {
        exists|j: int|
            0 <= j < self.cards.len() && (#[trigger] self.cards[j]).column_id == column_id
                && card_view(self.cards[j]) == card
    }

    /// `cards` are the cards of the column of `board_id` called `name`,
    /// newest first; there are none where the board has no such column.
    pub open spec fn is_cards_of(self, board_id: u64, name: Seq<char>, cards: Seq<CardView>) -> bool {
        if self.has_column(board_id, name) {
            self.is_card_listing(self.columns[self.column_index(board_id, name)].id, cards)
        } else {
            cards.len() == 0
        }
    }

    /// `cols` are the columns of board `board_id`, from left to right.
    pub open spec fn is_column_listing(self, board_id: u64, cols: Seq<ColumnRec>) -> bool {
        &&& forall|i: int|
            0 <= i < cols.len() ==> self.columns.contains(#[trigger] cols[i]) && cols[i].board_id
                == board_id
        &&& forall|k: int|
            0 <= k < self.columns.len() && (#[trigger] self.columns[k]).board_id == board_id
                ==> cols.contains(self.columns[k])
        &&& forall|i: int, j: int| 0 <= i < j < cols.len() ==> column_before(cols[i], cols[j])
    }

    /// `views` show the columns `cols`, each with its cards newest first.
    pub open spec fn shows_columns(self, cols: Seq<ColumnRec>, views: Seq<ColumnView>) -> bool {
        &&& views.len() == cols.len()
        &&& forall|i: int|
            0 <= i < views.len() ==> (#[trigger] views[i]).name == cols[i].name
                && self.is_card_listing(cols[i].id, views[i].cards)
    }

    /// `views` show the columns of board `board_id` from left to right, each
    /// with its cards newest first.
    pub open spec fn is_columns_of(self, board_id: u64, views: Seq<ColumnView>) -> bool {
        exists|cols: Seq<ColumnRec>|
            self.is_column_listing(board_id, cols) && #[trigger] self.shows_columns(cols, views)
    }

    /// `view` shows the board `rec` with its columns and cards.
    pub open spec fn is_board_view(self, rec: BoardRec, view: BoardView) -> bool {
        &&& view.id == rec.id
        &&& view.name == rec.name
        &&& self.is_columns_of(rec.id, view.columns)
    }

    /// `names` are the names of the columns of board `board_id`, from left to
    /// right.
    pub open spec fn is_column_names(self, board_id: u64, names: Seq<Seq<char>>) -> bool {
        exists|cols: Seq<ColumnRec>|
            self.is_column_listing(board_id, cols) && #[trigger] column_names(cols) == names
    }

    /// `meta` sums up the board `rec`.
    pub open spec fn is_meta(self, rec: BoardRec, meta: BoardMetaView) -> bool {
        &&& meta.id == rec.id
        &&& meta.name == rec.name
        &&& meta.inserted_at == rec.inserted_at
        &&& meta.updated_at == rec.updated_at
        &&& meta.viewed_at == rec.viewed_at
        &&& self.is_column_names(rec.id, meta.columns)
    }

    /// Some board with a column is summed up by `meta`.
    #[verifier::opaque]
    pub open spec fn has_meta(self, meta: BoardMetaView) -> bool {
        exists|b: int|
            0 <= b < self.boards.len() && self.has_any_column((#[trigger] self.boards[b]).id)
                && self.is_meta(self.boards[b], meta)
    }

    /// `metas` sum up the boards that have a column, the one viewed last
    /// first.
    pub open spec fn is_board_listing(self, metas: Seq<BoardMetaView>) -> bool {
        &&& forall|i: int| 0 <= i < metas.len() ==> self.has_meta(#[trigger] metas[i])
        &&& forall|b: int|
            0 <= b < self.boards.len() && self.has_any_column((#[trigger] self.boards[b]).id)
                ==> exists|i: int| 0 <= i < metas.len() && (#[trigger] metas[i]).id == self.boards[b].id
        &&& forall|i: int, j: int| 0 <= i < j < metas.len() ==> meta_before(metas[i], metas[j])
    }

    /// The board at position `b` was viewed last of all.
    pub open spec fn is_latest_board(self, b: int) -> bool {
        &&& 0 <= b < self.boards.len()
        &&& forall|j: int|
            0 <= j < self.boards.len() && j != b ==> board_before(
                self.boards[b],
                #[trigger] self.boards[j],
            )
    }
}

/// Every operation keeps the tables consistent.
impl Tables {
    /// References survive a change that keeps the identities of the boards
    /// and columns in place and gives every card a board and a column.
    pub proof fn lemma_references_kept(self, new: Tables)
        requires
            self.references_hold(),
            new.boards.len() >= self.boards.len(),
            forall|i: int|
                0 <= i < self.boards.len() ==> (#[trigger] new.boards[i]).id == self.boards[i].id,
            new.columns.len() >= self.columns.len(),
            forall|k: int|
                0 <= k < self.columns.len() ==> (#[trigger] new.columns[k]).id
                    == self.columns[k].id && new.columns[k].board_id == self.columns[k].board_id,
            forall|k: int|
                self.columns.len() <= k < new.columns.len() ==> new.has_board(
                    (#[trigger] new.columns[k]).board_id,
                ),
            forall|i: int|
                0 <= i < new.cards.len() ==> self.has_card_like(#[trigger] new.cards[i]) || (
                new.has_board(new.cards[i].board_id) && new.card_column_exists(new.cards[i])),
        ensures
            new.references_hold(),
    {
        assert forall|id: u64| self.has_board(id) implies new.has_board(id) by {
            let b = self.board_index(id);
            assert(new.boards[b].id == id);
        }
        assert forall|k: int| 0 <= k < new.columns.len() implies new.has_board(
            #[trigger] new.columns[k].board_id,
        ) by {
            if k < self.columns.len() {
                assert(self.has_board(self.columns[k].board_id));
            }
        }
        assert forall|i: int| 0 <= i < new.cards.len() implies new.has_board(
            #[trigger] new.cards[i].board_id,
        ) && new.card_column_exists(new.cards[i]) by {
            if !(new.has_board(new.cards[i].board_id) && new.card_column_exists(new.cards[i])) {
                assert(self.has_card_like(new.cards[i]));
                let j = choose|j: int|
                    0 <= j < self.cards.len() && (#[trigger] self.cards[j]).board_id
                        == new.cards[i].board_id && self.cards[j].column_id
                        == new.cards[i].column_id;
                assert(self.has_board(self.cards[j].board_id));
                assert(self.card_column_exists(self.cards[j]));
                let k = choose|k: int|
                    0 <= k < self.columns.len() && #[trigger] self.columns[k].id
                        == self.cards[j].column_id && self.columns[k].board_id
                        == self.cards[j].board_id;
                assert(new.columns[k].id == new.cards[i].column_id);
            }
        }
    }

    pub proof fn lemma_add_board(self, name: Seq<char>)
        requires
            self.wf(),
            !self.has_board_named(name),
            self.next_board_id < u64::MAX,
            self.clock < u64::MAX,
        ensures
            self.add_board(name).wf(),
    {
        let t = self.add_board(name);
        let n = self.boards.len() as int;
        assert(t.boards[n] == self.new_board(name));
        assert forall|i: int| 0 <= i < t.cards.len() implies self.has_card_like(
            #[trigger] t.cards[i],
        ) by {
            assert(self.cards[i].board_id == t.cards[i].board_id);
        }
        self.lemma_references_kept(t);
        assert(t.names_unique()) by {
            assert forall|i: int, j: int| 0 <= i < j < t.boards.len() implies t.boards[i].name
                != t.boards[j].name by {
                if j == n {
                    assert(self.boards[i].name != name);
                }
            }
        }
        assert(t.numbers_ordered()) by {
            assert forall|i: int, b: int|
                0 <= i < t.cards.len() && 0 <= b < t.boards.len() && #[trigger] t.cards[i].board_id
                    == #[trigger] t.boards[b].id implies t.cards[i].number
                < t.boards[b].next_number by {
                if b == n {
                    assert(self.has_board(self.cards[i].board_id));
                    let w = self.board_index(self.cards[i].board_id);
                    assert(self.boards[w].id < self.next_board_id);
                }
            }
        }
    }

    pub proof fn lemma_create_board(self, name: Seq<char>, names: Seq<Seq<char>>)
        requires
            self.wf(),
            self.create_board_error(name, names) is None,
        ensures
            self.create_board(name, names).wf(),
    {
        let a = self.add_board(name);
        self.lemma_add_board(name);
        let t = self.create_board(name, names);
        let n = self.columns.len() as int;
        let fresh = self.new_columns(self.next_board_id, names);
        assert forall|k: int| n <= k < t.columns.len() implies #[trigger] t.columns[k] == fresh[k
            - n] by {}
        assert forall|k: int| 0 <= k < n implies #[trigger] t.columns[k] == self.columns[k] by {}
        assert forall|k: int| a.columns.len() <= k < t.columns.len() implies t.has_board(
            (#[trigger] t.columns[k]).board_id,
        ) by {
            assert(t.boards[self.boards.len() as int].id == self.next_board_id);
        }
        assert forall|i: int| 0 <= i < t.cards.len() implies a.has_card_like(
            #[trigger] t.cards[i],
        ) by {
            assert(a.cards[i].board_id == t.cards[i].board_id);
        }
        a.lemma_references_kept(t);
        assert(t.names_unique()) by {
            assert forall|i: int, j: int|
                0 <= i < j < t.columns.len() && t.columns[i].board_id
                    == t.columns[j].board_id implies t.columns[i].name != t.columns[j].name by {
                if j >= n {
                    if i < n {
                        assert(self.has_board(self.columns[i].board_id));
                        let w = self.board_index(self.columns[i].board_id);
                        assert(self.boards[w].id < self.next_board_id);
                    } else {
                        assert(names[i - n] != names[j - n]);
                    }
                }
            }
        }
    }

    /// The board that a summary sums up.
    pub proof fn lemma_meta_board(self, meta: BoardMetaView) -> (b: int)
        requires
            self.has_meta(meta),
        ensures
            0 <= b < self.boards.len(),
            self.has_any_column(self.boards[b].id),
            self.is_meta(self.boards[b], meta),
    {
        reveal(Tables::has_meta);
        choose|b: int|
            0 <= b < self.boards.len() && self.has_any_column((#[trigger] self.boards[b]).id)
                && self.is_meta(self.boards[b], meta)
    }

    /// What sums up a board with a column is a summary.
    pub proof fn lemma_has_meta(self, b: int, meta: BoardMetaView)
        requires
            0 <= b < self.boards.len(),
            self.has_any_column(self.boards[b].id),
            self.is_meta(self.boards[b], meta),
        ensures
            self.has_meta(meta),
    {
        reveal(Tables::has_meta);
    }

    /// The board at position `i` is the one that its identity finds.
    pub proof fn lemma_board_index(self, i: int)
        requires
            self.ids_ordered(),
            0 <= i < self.boards.len(),
        ensures
            self.has_board(self.boards[i].id),
            self.board_index(self.boards[i].id) == i,
    {
        let w = self.board_index(self.boards[i].id);
        assert(self.boards[w].id == self.boards[i].id);
        if w < i {
            assert(self.boards[w].id < self.boards[i].id);
        } else if i < w {
            assert(self.boards[i].id < self.boards[w].id);
        }
    }

    /// The card at position `i` is the one that its identity finds.
    pub proof fn lemma_card_index(self, i: int)
        requires
            self.ids_ordered(),
            0 <= i < self.cards.len(),
        ensures
            self.has_card(self.cards[i].id),
            self.card_index(self.cards[i].id) == i,
    {
        let w = self.card_index(self.cards[i].id);
        assert(self.cards[w].id == self.cards[i].id);
        if w < i {
            assert(self.cards[w].id < self.cards[i].id);
        } else if i < w {
            assert(self.cards[i].id < self.cards[w].id);
        }
    }

    /// The column at position `k` is the one that its board and name find.
    pub proof fn lemma_column_index(self, k: int)
        requires
            self.names_unique(),
            0 <= k < self.columns.len(),
        ensures
            self.has_column(self.columns[k].board_id, self.columns[k].name),
            self.column_index(self.columns[k].board_id, self.columns[k].name) == k,
    {
        let c = self.columns[k];
        assert(self.is_column_of(k, c.board_id, c.name));
        let w = self.column_index(c.board_id, c.name);
        assert(self.is_column_of(w, c.board_id, c.name));
        if w < k {
            assert(self.columns[w].name != self.columns[k].name);
        } else if k < w {
            assert(self.columns[k].name != self.columns[w].name);
        }
    }

    /// The board at position `i` is the one that its name finds.
    pub proof fn lemma_board_named_index(self, i: int)
        requires
            self.names_unique(),
            0 <= i < self.boards.len(),
        ensures
            self.has_board_named(self.boards[i].name),
            self.board_named_index(self.boards[i].name) == i,
    {
        let w = self.board_named_index(self.boards[i].name);
        assert(self.boards[w].name == self.boards[i].name);
        if w < i {
            assert(self.boards[w].name != self.boards[i].name);
        } else if i < w {
            assert(self.boards[i].name != self.boards[w].name);
        }
    }

    /// Cards that keep their board and column keep their references.
    pub proof fn lemma_cards_like(self, new: Tables)
        requires
            new.cards.len() == self.cards.len(),
            forall|i: int|
                0 <= i < self.cards.len() ==> (#[trigger] new.cards[i]).board_id
                    == self.cards[i].board_id && new.cards[i].column_id == self.cards[i].column_id,
        ensures
            forall|i: int| 0 <= i < new.cards.len() ==> self.has_card_like(#[trigger] new.cards[i]),
    {
        assert forall|i: int| 0 <= i < new.cards.len() implies self.has_card_like(
            #[trigger] new.cards[i],
        ) by {
            assert(self.cards[i].board_id == new.cards[i].board_id);
        }
    }

    pub proof fn lemma_view_board(self, id: u64)
        requires
            self.wf(),
            self.has_board(id),
            self.clock < u64::MAX,
        ensures
            self.view_board(id).wf(),
    {
        let t = self.view_board(id);
        self.lemma_cards_like(t);
        self.lemma_references_kept(t);
    }

    pub proof fn lemma_add_column(self, board_id: u64, name: Seq<char>)
        requires
            self.wf(),
            self.has_board(board_id),
            !self.has_column(board_id, name),
            self.next_column_id < u64::MAX,
        ensures
            self.add_column(board_id, name).wf(),
    {
        let t = self.add_column(board_id, name);
        let n = self.columns.len() as int;
        self.lemma_cards_like(t);
        assert(t.has_board(board_id)) by {
            let b = self.board_index(board_id);
            assert(t.boards[b].id == board_id);
        }
        self.lemma_references_kept(t);
        assert(t.names_unique()) by {
            assert forall|i: int, j: int|
                0 <= i < j < t.columns.len() && t.columns[i].board_id
                    == t.columns[j].board_id implies t.columns[i].name != t.columns[j].name by {
                if j == n {
                    assert(!self.is_column_of(i, board_id, name));
                }
            }
        }
    }

    /// A board with a column has a leftmost column.
    pub proof fn lemma_first_column(self, board_id: u64)
        requires
            self.ids_ordered(),
            self.has_any_column(board_id),
        ensures
            self.is_first_column(self.first_column(board_id), board_id),
    {
        let w = choose|k: int|
            0 <= k < self.columns.len() && #[trigger] self.columns[k].board_id == board_id;
        let k = self.lemma_first_column_upto(board_id, self.columns.len() as int, w);
        assert(self.is_first_column(k, board_id));
    }

    /// Among the first `n` columns, one column of the board stands left of
    /// all the others of the board.
    proof fn lemma_first_column_upto(self, board_id: u64, n: int, w: int) -> (k: int)
        requires
            self.ids_ordered(),
            0 <= w < n <= self.columns.len(),
            self.columns[w].board_id == board_id,
        ensures
            0 <= k < n,
            self.columns[k].board_id == board_id,
            forall|j: int|
                0 <= j < n && j != k && #[trigger] self.columns[j].board_id == board_id
                    ==> column_before(self.columns[k], self.columns[j]),
        decreases n,
    {
        if w == n - 1 {
            if exists|v: int| 0 <= v < n - 1 && #[trigger] self.columns[v].board_id == board_id {
                let v = choose|v: int|
                    0 <= v < n - 1 && #[trigger] self.columns[v].board_id == board_id;
                let k = self.lemma_first_column_upto(board_id, n - 1, v);
                if column_before(self.columns[k], self.columns[n - 1]) {
                    k
                } else {
                    assert(self.columns[k].id < self.columns[n - 1].id);
                    n - 1
                }
            } else {
                n - 1
            }
        } else {
            let k = self.lemma_first_column_upto(board_id, n - 1, w);
            if self.columns[n - 1].board_id != board_id || column_before(
                self.columns[k],
                self.columns[n - 1],
            ) {
                k
            } else {
                assert(self.columns[k].id < self.columns[n - 1].id);
                n - 1
            }
        }
    }

    pub proof fn lemma_insert_card(self, board_id: u64, title: Seq<char>, body: Seq<char>)
        requires
            self.wf(),
            self.insert_card_error(board_id) is None,
        ensures
            self.insert_card(board_id, title, body).wf(),
    {
        let t = self.insert_card(board_id, title, body);
        let b = self.board_index(board_id);
        let n = self.cards.len() as int;
        let card = self.new_card(board_id, title, body);
        self.lemma_first_column(board_id);
        let k = self.first_column(board_id);
        assert(t.cards[n] == card);
        assert forall|i: int| 0 <= i < t.cards.len() implies self.has_card_like(
            #[trigger] t.cards[i],
        ) || (t.has_board(t.cards[i].board_id) && t.card_column_exists(t.cards[i])) by {
            if i < n {
                assert(self.cards[i].board_id == t.cards[i].board_id);
            } else {
                assert(t.boards[b].id == board_id);
                assert(t.columns[k].id == card.column_id);
            }
        }
        self.lemma_references_kept(t);
        assert(t.numbers_ordered()) by {
            assert forall|i: int, c: int|
                0 <= i < t.cards.len() && 0 <= c < t.boards.len() && #[trigger] t.cards[i].board_id
                    == #[trigger] t.boards[c].id implies t.cards[i].number
                < t.boards[c].next_number by {
                self.lemma_board_index(c);
                if i < n {
                    assert(self.cards[i].number < self.boards[c].next_number);
                }
            }
            assert forall|i: int, j: int|
                0 <= i < j < t.cards.len() && t.cards[i].board_id
                    == t.cards[j].board_id implies t.cards[i].number < t.cards[j].number by {
                if j == n {
                    assert(self.cards[i].board_id == self.boards[b].id);
                }
            }
        }
    }

    pub proof fn lemma_update_card(self, id: u64, title: Seq<char>, body: Seq<char>)
        requires
            self.wf(),
            self.has_card(id),
            self.clock < u64::MAX,
        ensures
            self.update_card(id, title, body).wf(),
    {
        let t = self.update_card(id, title, body);
        let i = self.card_index(id);
        assert(self.has_board(self.cards[i].board_id));
        self.lemma_cards_like(t);
        self.lemma_references_kept(t);
    }

    pub proof fn lemma_move_card(self, board_id: u64, card_id: u64, name: Seq<char>)
        requires
            self.wf(),
            self.can_move_card(board_id, card_id, name),
            self.clock < u64::MAX,
        ensures
            self.move_card(board_id, card_id, name).wf(),
    {
        let t = self.move_card(board_id, card_id, name);
        let i = self.card_index(card_id);
        let k = self.column_index(board_id, name);
        assert(self.is_column_of(k, board_id, name));
        assert(self.has_board(self.cards[i].board_id));
        let b = self.board_index(board_id);
        assert forall|j: int| 0 <= j < t.cards.len() implies self.has_card_like(
            #[trigger] t.cards[j],
        ) || (t.has_board(t.cards[j].board_id) && t.card_column_exists(t.cards[j])) by {
            if j != i {
                assert(self.cards[j].board_id == t.cards[j].board_id);
            } else {
                assert(t.boards[b].id == board_id);
                assert(t.columns[k].id == t.cards[j].column_id);
            }
        }
        self.lemma_references_kept(t);
    }

    pub proof fn lemma_delete_card(self, id: u64)
        requires
            self.wf(),
        ensures
            self.delete_card(id).wf(),
    {
        if self.has_card(id) {
            let t = self.delete_card(id);
            let i = self.card_index(id);
            assert forall|j: int| 0 <= j < t.cards.len() implies self.has_card_like(
                #[trigger] t.cards[j],
            ) by {
                let w = if j < i { j } else { j + 1 };
                assert(t.cards[j] == self.cards[w]);
                assert(self.cards[w].board_id == t.cards[j].board_id);
            }
            self.lemma_references_kept(t);
            assert forall|j: int| 0 <= j < t.cards.len() implies #[trigger] t.cards[j]
                == self.cards[if j < i { j } else { j + 1 }] by {}
        }
    }

    /// Placing a column changes the columns alone, keeps those that are
    /// there in place, and uses at most one identity.
    pub open spec fn columns_grown(self, new: Tables, n: int) -> bool {
        &&& new.boards == self.boards
        &&& new.cards == self.cards
        &&& new.next_board_id == self.next_board_id
        &&& new.next_card_id == self.next_card_id
        &&& new.clock == self.clock
        &&& self.next_column_id <= new.next_column_id <= self.next_column_id + n
        &&& new.columns.len() >= self.columns.len()
        &&& forall|k: int|
            0 <= k < self.columns.len() ==> (#[trigger] new.columns[k]).id == self.columns[k].id
                && new.columns[k].board_id == self.columns[k].board_id && new.columns[k].name
                == self.columns[k].name
    }

    pub proof fn lemma_place_column(self, board_id: u64, name: Seq<char>, order: u64)
        requires
            self.wf(),
            self.has_board(board_id),
            self.next_column_id < u64::MAX,
        ensures
            self.place_column(board_id, name, order).wf(),
            self.columns_grown(self.place_column(board_id, name, order), 1),
    {
        let t = self.place_column(board_id, name, order);
        self.lemma_cards_like(t);
        if self.has_column(board_id, name) {
            let k = self.column_index(board_id, name);
            assert(self.is_column_of(k, board_id, name));
            self.lemma_references_kept(t);
        } else {
            let n = self.columns.len() as int;
            assert(t.has_board(board_id)) by {
                let b = self.board_index(board_id);
                assert(t.boards[b].id == board_id);
            }
            self.lemma_references_kept(t);
            assert(t.names_unique()) by {
                assert forall|i: int, j: int|
                    0 <= i < j < t.columns.len() && t.columns[i].board_id
                        == t.columns[j].board_id implies t.columns[i].name
                    != t.columns[j].name by {
                    if j == n {
                        assert(!self.is_column_of(i, board_id, name));
                    }
                }
            }
        }
    }

    pub proof fn lemma_place_columns(self, board_id: u64, names: Seq<Seq<char>>, n: int)
        requires
            self.wf(),
            self.has_board(board_id),
            0 <= n <= names.len(),
            self.next_column_id + n <= u64::MAX,
        ensures
            self.place_columns(board_id, names, n).wf(),
            self.columns_grown(self.place_columns(board_id, names, n), n),
        decreases n,
    {
        if n > 0 {
            self.lemma_place_columns(board_id, names, n - 1);
            let t = self.place_columns(board_id, names, n - 1);
            t.lemma_place_column(board_id, names[n - 1], (n - 1) as u64);
        }
    }

    pub proof fn lemma_rearrange(self, board_id: u64, name: Seq<char>, names: Seq<Seq<char>>)
        requires
            self.wf(),
            self.reorder_error(board_id, name, names.len()) is None,
        ensures
            self.rearrange(board_id, name, names).wf(),
            self.rearrange(board_id, name, names).has_board(board_id),
            self.rearrange(board_id, name, names).board(board_id).name == name,
            self.rearrange(board_id, name, names).clock == self.clock,
    {
        let p = self.place_columns(board_id, names, names.len() as int);
        self.lemma_place_columns(board_id, names, names.len() as int);
        let t = self.rearrange(board_id, name, names);
        let b = self.board_index(board_id);
        p.lemma_cards_like(t);
        assert forall|k: int| 0 <= k < p.columns.len() implies (#[trigger] t.columns[k]).id
            == p.columns[k].id && t.columns[k].board_id == p.columns[k].board_id by {}
        p.lemma_references_kept(t);
        assert(t.names_unique()) by {
            assert forall|i: int, j: int| 0 <= i < j < t.boards.len() implies t.boards[i].name
                != t.boards[j].name by {
                if i == b || j == b {
                    let o = if i == b { j } else { i };
                    if self.boards[o].name == name {
                        self.lemma_board_named_index(o);
                        self.lemma_board_index(b);
                    }
                }
            }
        }
        assert(t.boards[b].id == board_id);
        t.lemma_board_index(b);
    }

    pub proof fn lemma_reorder(self, board_id: u64, name: Seq<char>, names: Seq<Seq<char>>)
        requires
            self.wf(),
            self.reorder_error(board_id, name, names.len()) is None,
        ensures
            self.reorder(board_id, name, names).wf(),
    {
        self.lemma_rearrange(board_id, name, names);
        self.rearrange(board_id, name, names).lemma_view_board(board_id);
    }

    pub proof fn lemma_set_time(self, now: u64)
        requires
            self.wf(),
        ensures
            self.set_time(now).wf(),
    {
        let t = self.set_time(now);
        assert forall|i: int| 0 <= i < t.cards.len() implies self.has_card_like(
            #[trigger] t.cards[i],
        ) by {
            assert(self.cards[i].board_id == t.cards[i].board_id);
        }
        self.lemma_references_kept(t);
    }
}

} // verus!
