//! The session: the loaded board, the selection, the mode, and the store.

use vstd::prelude::*;
use crate::board::{
    Board,
    BoardMeta,
    Card,
    Column,
    meta_views,
    name_views,
    newest_first,
    sort_newest_first,
    with_id,
};
use crate::error::Error;
use crate::mode::{ConfirmationState, Mode, RunningState};
use crate::repo::Repo;
use crate::text::{same_text, views};

verus! {

/// What is highlighted: a board of the picker, a column of the loaded board,
/// and a card of that column.
#[derive(Debug, Clone, Copy, PartialEq, Eq, Structural)]
pub struct SelectedState {
    /// The identity of the board that is loaded or about to be.
    pub board_id: u64,
    /// The position in the list of board summaries.
    pub board_index: Option<usize>,
    /// The position in the loaded board's columns.
    pub column_index: usize,
    /// The position in the selected column's cards.
    pub card_index: Option<usize>,
}

/// The whole state of a session.
#[derive(Debug)]
pub struct Model {
    pub board_metas: Vec<BoardMeta>,
    pub board: Option<Board>,
    pub selected: SelectedState,
    pub mode: Mode,
    pub running_state: RunningState,
    pub confirmation_state: ConfirmationState,
    pub repo: Repo,
    pub error: Option<String>,
}

/// The card position once the selection has entered a column of `len`
/// cards: none in an empty column, the top card where none was selected
/// before, else the row that was selected, or the last row where the column
/// is shorter.
pub open spec fn card_after_move(prev: Option<usize>, len: nat) -> Option<usize> {
    if len == 0 {
        None
    } else {
        match prev {
            None => Some(0),
            Some(i) => Some(if i < len { i } else { (len - 1) as usize }),
        }
    }
}

/// The card position once the selection has moved one row down in a column
/// of `len` cards; `len` is `None` where no column is selected.
pub open spec fn card_after_down(prev: Option<usize>, len: Option<nat>) -> Option<usize> {
    match prev {
        None => None,
        Some(i) => {
            let next = if i == usize::MAX { i } else { (i + 1) as usize };
            let last = match len {
                None => usize::MAX,
                Some(n) => if n == 0 { 0 } else { (n - 1) as usize },
            };
            Some(if next < last { next } else { last })
        },
    }
}

/// The position once the selection has moved one row up.
pub open spec fn index_after_up(prev: Option<usize>) -> Option<usize> {
    match prev {
        None => None,
        Some(i) => Some(if i == 0 { 0 } else { (i - 1) as usize }),
    }
}

/// The card position once the card at `i` has left a column that then
/// holds `len` cards.
pub open spec fn card_after_delete(i: usize, len: nat) -> Option<usize> {
    if len == 0 {
        None
    } else if i < len {
        Some(i)
    } else {
        Some((len - 1) as usize)
    }
}

/// `new` is `old` but for the cards of the columns `a` and `b`.
pub open spec fn same_but_cards(old: Board, new: Board, a: int, b: int) -> bool {
    &&& new.id == old.id
    &&& new.name == old.name
    &&& new.columns@.len() == old.columns@.len()
    &&& forall|j: int|
        0 <= j < old.columns@.len() ==> (#[trigger] new.columns@[j]).name == old.columns@[j].name
            && (j != a && j != b ==> new.columns@[j].cards == old.columns@[j].cards)
}

/// `new` is `old` once the card at row `i` of column `from` has gone to the
/// top of column `to`.
pub open spec fn card_moved(old: Board, new: Board, from: int, i: int, to: int) -> bool {
    &&& same_but_cards(old, new, from, to)
    &&& new.columns@[from].cards@ == old.columns@[from].cards@.remove(i)
    &&& new.columns@[to].cards@ == old.columns@[to].cards@.insert(0, old.columns@[from].cards@[i])
}

/// `new` is `old` once the card at row `i` of column `at` has gone.
pub open spec fn card_removed(old: Board, new: Board, at: int, i: int) -> bool {
    &&& same_but_cards(old, new, at, at)
    &&& new.columns@[at].cards@ == old.columns@[at].cards@.remove(i)
}

/// `new` is `old` with `card` on top of column `at`.
pub open spec fn card_prepended(old: Board, new: Board, at: int, card: Card) -> bool {
    &&& same_but_cards(old, new, at, at)
    &&& new.columns@[at].cards@ == old.columns@[at].cards@.insert(0, card)
}

/// `new` holds the cards of `old`, newest first, and cards of the same
/// identity in the order in which they stood.
pub open spec fn cards_sorted(old: Seq<Card>, new: Seq<Card>) -> bool {
    &&& newest_first(new)
    &&& new.to_multiset() == old.to_multiset()
    &&& forall|id: u64| with_id(new, id) == with_id(old, id)
}

/// `new` is `old` with every column holding the cards it held, newest
/// first.
pub open spec fn columns_sorted(old: Board, new: Board) -> bool {
    &&& new.id == old.id
    &&& new.name == old.name
    &&& new.columns@.len() == old.columns@.len()
    &&& forall|j: int|
        0 <= j < old.columns@.len() ==> (#[trigger] new.columns@[j]).name == old.columns@[j].name
            && cards_sorted(old.columns@[j].cards@, new.columns@[j].cards@)
}

/// `new` is `old` with a new title, body and stamp.
pub open spec fn card_rewritten(
    old: Card,
    new: Card,
    title: Seq<char>,
    body: Seq<char>,
    stamp: u64,
) -> bool {
    &&& new.id == old.id
    &&& new.number == old.number
    &&& new.inserted_at == old.inserted_at
    &&& new.title@ == title
    &&& new.body@ == body
    &&& new.updated_at == stamp
}

/// Every name of `kept` occurs among `names`.
pub open spec fn covers(names: Seq<Seq<char>>, kept: Seq<Seq<char>>) -> bool {
    forall|i: int| 0 <= i < kept.len() ==> names.contains(#[trigger] kept[i])
}

/// The card position on entering a board: the top card of the first column,
/// or none where there is no such card.
pub open spec fn first_card(board: Board) -> Option<usize> {
    if board.columns@.len() > 0 && board.columns@[0].cards@.len() > 0 {
        Some(0)
    } else {
        None
    }
}

/// Some column of `board` is called `name`.
pub open spec fn has_column_named(board: Board, name: Seq<char>) -> bool {
    exists|j: int| 0 <= j < board.columns@.len() && (#[trigger] board.columns@[j]).name@ == name
}

impl Model {
    /// The store is consistent.
    pub open spec fn wf(&self) -> bool {
        self.repo.wf()
    }

    /// The number of columns of the loaded board; 0 where none is loaded.
    pub open spec fn column_count(&self) -> nat {
        match self.board {
            Some(board) => board.columns@.len(),
            None => 0,
        }
    }

    /// The cards of column `i` of the loaded board.
    pub open spec fn cards_at(&self, i: int) -> Seq<Card> {
        self.board->0.columns@[i].cards@
    }

    /// The selected column, where the loaded board has one there.
    pub open spec fn spec_selected_column(&self) -> Option<Column> {
        if self.selected.column_index < self.column_count() {
            Some(self.board->0.columns@[self.selected.column_index as int])
        } else {
            None
        }
    }

    /// The selected card, where the selected column has one there.
    pub open spec fn spec_selected_card(&self) -> Option<Card> {
        match (self.spec_selected_column(), self.selected.card_index) {
            (Some(column), Some(i)) => if i < column.cards@.len() {
                Some(column.cards@[i as int])
            } else {
                None
            },
            _ => None,
        }
    }

    /// The selection points at what exists: in a loaded board with columns
    /// the column position is valid, and a card is selected exactly where
    /// the selected column holds cards.
    pub open spec fn cursor_ok(&self) -> bool {
        match self.board {
            None => true,
            Some(board) => if board.columns@.len() == 0 {
                self.selected.card_index is None
            } else {
                &&& self.selected.column_index < board.columns@.len()
                &&& match self.selected.card_index {
                    None => self.cards_at(self.selected.column_index as int).len() == 0,
                    Some(i) => i < self.cards_at(self.selected.column_index as int).len(),
                }
            },
        }
    }

    /// The selection once it has gone to column `target`: unchanged where
    /// the loaded board has no such column or `target` is selected already.
    pub open spec fn selected_at(&self, target: int) -> SelectedState {
        if 0 <= target < self.column_count() && target != self.selected.column_index {
            SelectedState {
                column_index: target as usize,
                card_index: card_after_move(self.selected.card_index, self.cards_at(target).len()),
                ..self.selected
            }
        } else {
            self.selected
        }
    }

    /// `post` is this session once the selected card has gone from the
    /// store and from the loaded board; nothing has changed where no card
    /// is selected.
    pub open spec fn card_deleted(&self, post: Model) -> bool {
        match self.spec_selected_card() {
            None => post == *self,
            Some(card) => {
                let at = self.selected.column_index as int;
                let i = self.selected.card_index->0;
                &&& post == (Model {
                    board: post.board,
                    repo: post.repo,
                    selected: SelectedState {
                        card_index: card_after_delete(i, post.cards_at(at).len()),
                        ..self.selected
                    },
                    ..*self
                })
                &&& post.repo@ == self.repo@.delete_card(card.id)
                &&& post.board is Some
                &&& card_removed(self.board->0, post.board->0, at, i as int)
            },
        }
    }

    /// `post` is this session once it shows the board picker.
    pub open spec fn switched_to_boards(&self, post: Model) -> bool {
        &&& self.repo@.is_board_listing(meta_views(post.board_metas@))
        &&& post == (Model {
            mode: Mode::ViewingBoards,
            board_metas: post.board_metas,
            board: None,
            selected: SelectedState {
                board_index: if post.board_metas@.len() > 0 {
                    Some(0)
                } else {
                    None
                },
                board_id: if post.board_metas@.len() > 0 {
                    post.board_metas@[0].id
                } else {
                    self.selected.board_id
                },
                ..self.selected
            },
            ..*self
        })
    }

    /// `post` is this session once the board that the selection names has
    /// been loaded, or one that differs in nothing where `r` is a refusal.
    pub open spec fn board_loaded(&self, post: Model, r: Result<(), Error>) -> bool {
        let id = self.selected.board_id;
        &&& post.repo@ == self.repo@.view_board_result(id)
        &&& match r {
            Ok(_) => {
                &&& self.repo@.view_board_error(id) is None
                &&& post.board is Some
                &&& post.repo@.is_board_view(self.repo@.board(id), post.board->0@)
                &&& post == (Model { board: post.board, repo: post.repo, ..*self })
            },
            Err(e) => {
                &&& self.repo@.view_board_error(id) == Some(e)
                &&& post == (Model { repo: post.repo, ..*self })
            },
        }
    }

    /// `post` is this session once a board has been created and the
    /// summaries read anew, or one that differs in nothing where `r` is a
    /// refusal.
    pub open spec fn board_created(
        &self,
        name: Seq<char>,
        names: Seq<Seq<char>>,
        post: Model,
        r: Result<(), Error>,
    ) -> bool {
        &&& post.repo@ == self.repo@.create_board_result(name, names)
        &&& match r {
            Ok(_) => {
                &&& self.repo@.create_board_error(name, names) is None
                &&& post.repo@.is_board_listing(meta_views(post.board_metas@))
                &&& post == (Model { board_metas: post.board_metas, repo: post.repo, ..*self })
            },
            Err(e) => {
                &&& self.repo@.create_board_error(name, names) == Some(e)
                &&& post == (Model { repo: post.repo, ..*self })
            },
        }
    }

    /// `post` is this session once the selected board has been renamed and
    /// its columns placed anew, or one that differs in nothing where `r` is
    /// a refusal.
    pub open spec fn board_updated(
        &self,
        name: Seq<char>,
        names: Seq<Seq<char>>,
        post: Model,
        r: Result<(), Error>,
    ) -> bool {
        match self.spec_selected_meta() {
            None => r == Err::<(), Error>(Error::EmptySelection) && post == *self,
            Some(meta) => if !covers(names, meta@.columns) {
                r == Err::<(), Error>(Error::ColumnsRemoved) && post == *self
            } else {
                &&& post.repo@ == self.repo@.reorder_result(meta.id, name, names)
                &&& match r {
                    Ok(_) => {
                        &&& self.repo@.reorder_error(meta.id, name, names.len()) is None
                        &&& post.repo@.is_board_listing(meta_views(post.board_metas@))
                        &&& post == (Model {
                            board_metas: post.board_metas,
                            repo: post.repo,
                            ..*self
                        })
                    },
                    Err(e) => {
                        &&& self.repo@.reorder_error(meta.id, name, names.len()) == Some(e)
                        &&& post == (Model { repo: post.repo, ..*self })
                    },
                }
            },
        }
    }

    /// `post` is this session once the selected card has gone one column to
    /// the left or right; nothing has changed where there is no card or no
    /// column to go to.
    pub open spec fn relocated(&self, left: bool, post: Model, r: Result<(), Error>) -> bool {
        match self.move_target(left) {
            None => r is Ok && post == *self,
            Some(to) => {
                let from = self.selected.column_index as int;
                let i = self.selected.card_index->0 as int;
                let board = self.board->0;
                let card = board.columns@[from].cards@[i];
                let name = board.columns@[to].name@;
                &&& post.repo@ == self.repo@.set_card_status_result(board.id, card.id, name)
                &&& match r {
                    Ok(_) => {
                        &&& self.repo@.set_card_status_error(board.id, card.id, name) is None
                        &&& post.board is Some
                        &&& card_moved(board, post.board->0, from, i, to)
                        &&& post == (Model {
                            board: post.board,
                            repo: post.repo,
                            selected: SelectedState {
                                column_index: to as usize,
                                card_index: Some(0),
                                ..self.selected
                            },
                            ..*self
                        })
                    },
                    Err(e) => {
                        &&& self.repo@.set_card_status_error(board.id, card.id, name) == Some(e)
                        &&& post == (Model { repo: post.repo, ..*self })
                    },
                }
            },
        }
    }

    /// `post` is this session with the cards of every column newest first.
    pub open spec fn columns_resorted(&self, post: Model) -> bool {
        &&& post == (Model { board: post.board, ..*self })
        &&& match self.board {
            None => post.board is None,
            Some(board) => post.board is Some && columns_sorted(board, post.board->0),
        }
    }

    /// The selected column.
    pub fn selected_column(&self) -> (r: Option<&Column>)
        ensures
            match r {
                Some(column) => self.spec_selected_column() == Some(*column),
                None => self.spec_selected_column() is None,
            },
    {
        match &self.board {
            Some(board) => {
                if self.selected.column_index < board.columns.len() {
                    Some(&board.columns[self.selected.column_index])
                } else {
                    None
                }
            },
            None => None,
        }
    }

    /// The selected card.
    pub fn selected_card(&self) -> (r: Option<&Card>)
        ensures
            match r {
                Some(card) => self.spec_selected_card() == Some(*card),
                None => self.spec_selected_card() is None,
            },
    {
        match (self.selected_column(), self.selected.card_index) {
            (Some(column), Some(i)) => {
                if i < column.cards.len() {
                    Some(&column.cards[i])
                } else {
                    None
                }
            },
            _ => None,
        }
    }

    /// The selected column, to be changed in place.
    pub fn selected_column_mut(&mut self) -> (r: Option<&mut Column>)
        ensures
            match r {
                Some(column) => {
                    let at = old(self).selected.column_index as int;
                    &&& old(self).spec_selected_column() == Some(*column)
                    &&& final(self).board is Some
                    &&& final(self).board->0.id == old(self).board->0.id
                    &&& final(self).board->0.name == old(self).board->0.name
                    &&& final(self).board->0.columns@ == old(self).board->0.columns@.update(
                        at,
                        *final(column),
                    )
                    &&& *final(self) == (Model { board: final(self).board, ..*old(self) })
                },
                None => old(self).spec_selected_column() is None && *final(self) == *old(self),
            },
    {
        let at = self.selected.column_index;
        match &mut self.board {
            Some(board) => {
                if at < board.columns.len() {
                    Some(&mut board.columns[at])
                } else {
                    None
                }
            },
            None => None,
        }
    }

    /// The selected card, to be changed in place.
    pub fn selected_card_mut(&mut self) -> (r: Option<&mut Card>)
        ensures
            match r {
                Some(card) => {
                    let at = old(self).selected.column_index as int;
                    let i = old(self).selected.card_index->0 as int;
                    &&& old(self).spec_selected_card() == Some(*card)
                    &&& final(self).board is Some
                    &&& same_but_cards(old(self).board->0, final(self).board->0, at, at)
                    &&& final(self).cards_at(at) =~= old(self).cards_at(at).update(i, *final(card))
                    &&& *final(self) == (Model { board: final(self).board, ..*old(self) })
                },
                None => old(self).spec_selected_card() is None && *final(self) == *old(self),
            },
    {
        let at = self.selected.column_index;
        match (&mut self.board, self.selected.card_index) {
            (Some(board), Some(i)) => {
                if at < board.columns.len() && i < board.columns[at].cards.len() {
                    Some(&mut board.columns[at].cards[i])
                } else {
                    None
                }
            },
            _ => None,
        }
    }

    /// The identity of the selected card.
    pub fn selected_card_id(&self) -> (r: Option<u64>)
        ensures
            match r {
                Some(id) => self.spec_selected_card() matches Some(card) && card.id == id,
                None => self.spec_selected_card() is None,
            },
    {
        match self.selected_card() {
            Some(card) => Some(card.id),
            None => None,
        }
    }

    /// Switches the highlighted answer of the deletion dialog.
    pub fn toggle_confirmation_state(&mut self)
        ensures
            *final(self) == (Model {
                confirmation_state: old(self).confirmation_state.toggled(),
                ..*old(self)
            }),
    {
        self.confirmation_state = self.confirmation_state.toggle();
    }

    /// Moves the selection to column `target`, if the loaded board has one
    /// there.
    fn select_column(&mut self, target: usize)
        ensures
            *final(self) == (Model { selected: old(self).selected_at(target as int), ..*old(self) }),
    {
        let prev = self.selected.card_index;
        match &self.board {
            Some(board) => {
                if target < board.columns.len() && target != self.selected.column_index {
                    let len = board.columns[target].cards.len();
                    self.selected.column_index = target;
                    self.selected.card_index = if len == 0 {
                        None
                    } else {
                        match prev {
                            None => Some(0),
                            Some(i) => Some(if i < len { i } else { len - 1 }),
                        }
                    };
                }
            },
            None => {},
        }
    }

    /// Moves the selection one column to the left; it stays in the leftmost
    /// column.
    pub fn navigate_left(&mut self)
        ensures
            *final(self) == (Model {
                selected: old(self).selected_at(old(self).selected.column_index - 1),
                ..*old(self)
            }),
    {
        if self.selected.column_index > 0 {
            self.select_column(self.selected.column_index - 1);
        }
    }

    /// Moves the selection one column to the right; it stays in the
    /// rightmost column.
    pub fn navigate_right(&mut self)
        ensures
            *final(self) == (Model {
                selected: old(self).selected_at(old(self).selected.column_index + 1),
                ..*old(self)
            }),
    {
        let count = match &self.board {
            Some(board) => board.columns.len(),
            None => 0,
        };
        if self.selected.column_index < count {
            self.select_column(self.selected.column_index + 1);
        }
    }

    /// Moves the selection one card down; it stays on the last card.
    pub fn navigate_down(&mut self)
        ensures
            *final(self) == (Model {
                selected: SelectedState {
                    card_index: card_after_down(
                        old(self).selected.card_index,
                        match old(self).spec_selected_column() {
                            Some(column) => Some(column.cards@.len()),
                            None => None,
                        },
                    ),
                    ..old(self).selected
                },
                ..*old(self)
            }),
    {
        let last = match self.selected_column() {
            Some(column) => if column.cards.len() == 0 {
                0
            } else {
                column.cards.len() - 1
            },
            None => usize::MAX,
        };
        self.selected.card_index = match self.selected.card_index {
            None => None,
            Some(i) => {
                let next = if i == usize::MAX {
                    i
                } else {
                    i + 1
                };
                Some(if next < last { next } else { last })
            },
        };
    }

    /// Moves the selection one card up; it stays on the first card.
    pub fn navigate_up(&mut self)
        ensures
            *final(self) == (Model {
                selected: SelectedState {
                    card_index: index_after_up(old(self).selected.card_index),
                    ..old(self).selected
                },
                ..*old(self)
            }),
    {
        self.selected.card_index = match self.selected.card_index {
            None => None,
            Some(i) => Some(if i == 0 { 0 } else { i - 1 }),
        };
    }
    /// Where a move of the selected card by one column ends: the column to
    /// the left or to the right, where a card is selected and the board has
    /// such a column.
    pub open spec fn move_target(&self, left: bool) -> Option<int> {
        let from = self.selected.column_index as int;
        let to = if left { from - 1 } else { from + 1 };
        if self.spec_selected_card() is Some && 0 <= to < self.column_count() {
            Some(to)
        } else {
            None
        }
    }

    /// Adds `card` to the selected column and puts the column's cards in the
    /// order newest first. Nothing happens where no column is selected.
    pub fn add_card_to_selected_column(&mut self, card: Card)
        ensures
            *final(self) == (Model { board: final(self).board, ..*old(self) }),
            match old(self).spec_selected_column() {
                None => final(self).board == old(self).board,
                Some(column) => {
                    let at = old(self).selected.column_index as int;
                    &&& final(self).board is Some
                    &&& same_but_cards(old(self).board->0, final(self).board->0, at, at)
                    &&& cards_sorted(column.cards@.push(card), final(self).cards_at(at))
                },
            },
    {
        let at = self.selected.column_index;
        match &mut self.board {
            Some(board) => {
                if at < board.columns.len() {
                    board.columns[at].cards.push(card);
                    sort_newest_first(&mut board.columns[at].cards);
                }
            },
            None => {},
        }
    }

    /// Puts the cards of every column in the order newest first.
    pub fn sort_columns(&mut self)
        ensures
            old(self).columns_resorted(*final(self)),
    {
        match &mut self.board {
            Some(board) => {
                let ghost before = *board;
                let n = board.columns.len();
                let mut j: usize = 0;
                while j < n
                    invariant
                        j <= n,
                        n == before.columns@.len(),
                        board.id == before.id,
                        board.name == before.name,
                        board.columns@.len() == n,
                        forall|k: int|
                            0 <= k < j ==> (#[trigger] board.columns@[k]).name
                                == before.columns@[k].name && cards_sorted(
                                before.columns@[k].cards@,
                                board.columns@[k].cards@,
                            ),
                        forall|k: int|
                            j <= k < n ==> (#[trigger] board.columns@[k]) == before.columns@[k],
                    decreases n - j,
                {
                    sort_newest_first(&mut board.columns[j].cards);
                    j = j + 1;
                }
            },
            None => {},
        }
    }

    /// Removes the selected card from the store and from the loaded board.
    ///
    /// The selection stays on the row of the removed card, moves to the last
    /// row where that row is gone, and is empty where the column is empty.
    /// Nothing happens where no card is selected.
    pub fn delete_selected_card(&mut self) -> (r: Result<(), Error>)
        requires
            old(self).wf(),
        ensures
            final(self).wf(),
            r is Ok,
            old(self).card_deleted(*final(self)),
    {
        let id = match self.selected_card_id() {
            Some(id) => id,
            None => {
                return Ok(());
            },
        };
        let at = self.selected.column_index;
        let i = match self.selected.card_index {
            Some(i) => i,
            None => {
                return Ok(());
            },
        };
        self.repo.delete_card(id);
        match &mut self.board {
            Some(board) => {
                let _ = board.columns[at].cards.remove(i);
                let len = board.columns[at].cards.len();
                self.selected.card_index = if len == 0 {
                    None
                } else if i < len {
                    Some(i)
                } else {
                    Some(len - 1)
                };
            },
            None => {},
        }
        Ok(())
    }

    /// Gives the selected card of the loaded board a new title, body and
    /// stamp.
    pub(crate) fn rewrite_selected_card(&mut self, title: &str, body: &str, stamp: u64)
        requires
            old(self).spec_selected_card() is Some,
        ensures
            *final(self) == (Model { board: final(self).board, ..*old(self) }),
            final(self).board is Some,
            ({
                let at = old(self).selected.column_index as int;
                let i = old(self).selected.card_index->0 as int;
                &&& same_but_cards(old(self).board->0, final(self).board->0, at, at)
                &&& final(self).cards_at(at).len() == old(self).cards_at(at).len()
                &&& forall|k: int|
                    0 <= k < old(self).cards_at(at).len() && k != i ==> final(self).cards_at(at)[k]
                        == old(self).cards_at(at)[k]
                &&& card_rewritten(
                    old(self).cards_at(at)[i],
                    final(self).cards_at(at)[i],
                    title@,
                    body@,
                    stamp,
                )
            }),
    {
        let at = self.selected.column_index;
        match (&mut self.board, self.selected.card_index) {
            (Some(board), Some(i)) => {
                board.columns[at].cards[i].title = title.to_owned();
                board.columns[at].cards[i].body = body.to_owned();
                board.columns[at].cards[i].updated_at = stamp;
            },
            _ => {},
        }
    }
    /// The selected summary, where the list of summaries has one there.
    pub open spec fn spec_selected_meta(&self) -> Option<BoardMeta> {
        match self.selected.board_index {
            Some(i) => if i < self.board_metas@.len() {
                Some(self.board_metas@[i as int])
            } else {
                None
            },
            None => None,
        }
    }

    /// The selection once the picker points at `index`: the board there
    /// becomes the one to load, where the list has a board there.
    pub open spec fn board_selected(&self, index: Option<usize>) -> SelectedState {
        SelectedState {
            board_index: index,
            board_id: match index {
                Some(i) => if i < self.board_metas@.len() {
                    self.board_metas@[i as int].id
                } else {
                    self.selected.board_id
                },
                None => self.selected.board_id,
            },
            ..self.selected
        }
    }

    /// The picker position one row further down; it stays on the last row.
    pub open spec fn board_index_after_down(&self) -> Option<usize> {
        match self.selected.board_index {
            None => None,
            Some(i) => {
                let last = if self.board_metas@.len() == 0 {
                    0
                } else {
                    (self.board_metas@.len() - 1) as usize
                };
                Some(if i < last { (i + 1) as usize } else { last })
            },
        }
    }

    /// A session on `repo`: it shows the board that was viewed last, with
    /// the top card of the first column selected, or the board picker where
    /// the store holds no board.
    pub fn new(repo: Repo) -> (model: Model)
        requires
            repo.wf(),
        ensures
            model.wf(),
            model.cursor_ok(),
            crate::coherence::coherent(model),
            model.repo == repo,
            model.running_state == RunningState::Running,
            model.confirmation_state == ConfirmationState::No,
            model.error is None,
            model.board_metas@.len() == 0,
            model.selected.board_index is None,
            model.selected.column_index == 0,
            match model.board {
                Some(board) => {
                    &&& model.mode == Mode::ViewingBoard
                    &&& model.selected.board_id == board.id
                    &&& model.selected.card_index == first_card(board)
                    &&& exists|b: int|
                        #[trigger] repo@.is_latest_board(b) && repo@.is_board_view(
                            repo@.boards[b],
                            board@,
                        )
                },
                None => {
                    &&& model.mode == Mode::ViewingBoards
                    &&& model.selected.card_index is None
                    &&& repo@.boards.len() == 0
                },
            },
    {
        let board = repo.load_most_recently_viewed_board();
        let mut selected = SelectedState {
            board_id: 1,
            board_index: None,
            column_index: 0,
            card_index: None,
        };
        let mode = match &board {
            Some(b) => {
                selected.board_id = b.id;
                if b.columns.len() > 0 && b.columns[0].cards.len() > 0 {
                    selected.card_index = Some(0);
                }
                Mode::ViewingBoard
            },
            None => Mode::ViewingBoards,
        };
        let model = Model {
            board_metas: Vec::new(),
            board,
            selected,
            mode,
            running_state: RunningState::Running,
            confirmation_state: ConfirmationState::No,
            repo,
            error: None,
        };
        proof {
            if model.board is Some {
                let loaded = model.board->0;
                assert(model.selected.board_id == loaded.id);
                let b = choose|b: int|
                    #[trigger] model.repo@.is_latest_board(b) && model.repo@.is_board_view(
                        model.repo@.boards[b],
                        loaded@,
                    );
                assert(model.repo@.is_latest_board(b));
            }
            crate::coherence::law_new_session_agrees(model);
        }
        model
    }

    /// Shows the board picker: the summaries are read anew, the loaded
    /// board is dropped, and the first summary, if any, is selected.
    pub fn switch_to_viewing_boards_mode(&mut self) -> (r: Result<(), Error>)
        requires
            old(self).wf(),
        ensures
            final(self).wf(),
            r is Ok,
            old(self).switched_to_boards(*final(self)),
    {
        self.mode = Mode::ViewingBoards;
        self.board_metas = self.repo.get_board_metas();
        self.board = None;
        if self.board_metas.len() > 0 {
            self.selected.board_index = Some(0);
            self.selected.board_id = self.board_metas[0].id;
        } else {
            self.selected.board_index = None;
        }
        Ok(())
    }

    /// Points the picker at `index`.
    fn select_board(&mut self, index: Option<usize>)
        ensures
            *final(self) == (Model { selected: old(self).board_selected(index), ..*old(self) }),
    {
        self.selected.board_index = index;
        match index {
            Some(i) => {
                if i < self.board_metas.len() {
                    self.selected.board_id = self.board_metas[i].id;
                }
            },
            None => {},
        }
    }

    /// Moves the picker one row up; it stays on the first row.
    pub fn navigate_boards_up(&mut self)
        ensures
            *final(self) == (Model {
                selected: old(self).board_selected(index_after_up(old(self).selected.board_index)),
                ..*old(self)
            }),
    {
        let index = match self.selected.board_index {
            None => None,
            Some(i) => Some(if i == 0 { 0 } else { i - 1 }),
        };
        self.select_board(index);
    }

    /// Moves the picker one row down; it stays on the last row.
    pub fn navigate_boards_down(&mut self)
        ensures
            *final(self) == (Model {
                selected: old(self).board_selected(old(self).board_index_after_down()),
                ..*old(self)
            }),
    {
        let last = if self.board_metas.len() == 0 {
            0
        } else {
            self.board_metas.len() - 1
        };
        let index = match self.selected.board_index {
            None => None,
            Some(i) => Some(if i < last { i + 1 } else { last }),
        };
        self.select_board(index);
    }

    /// Loads the board that the selection names, and stamps it as viewed.
    pub fn load_selected_board(&mut self) -> (r: Result<(), Error>)
        requires
            old(self).wf(),
        ensures
            final(self).wf(),
            old(self).board_loaded(*final(self), r),
    {
        match self.repo.load_board(self.selected.board_id) {
            Ok(board) => {
                self.board = Some(board);
                Ok(())
            },
            Err(e) => Err(e),
        }
    }

    /// Creates a board with its columns and reads the summaries anew.
    ///
    /// A board without columns is refused, and so is a name that is taken
    /// or a column name that occurs twice; the store and the summaries then
    /// stay as they are.
    pub fn create_board(&mut self, name: &str, column_names: &[&str]) -> (r: Result<(), Error>)
        requires
            old(self).wf(),
        ensures
            final(self).wf(),
            old(self).board_created(name@, views(column_names@), *final(self), r),
    {
        match self.repo.create_board(name, column_names) {
            Ok(_) => {
                self.board_metas = self.repo.get_board_metas();
                Ok(())
            },
            Err(e) => Err(e),
        }
    }

    /// Whether every column name of `kept` occurs among `names`.
    fn all_kept(names: &[&str], kept: &Vec<String>) -> (r: bool)
        ensures
            r == covers(views(names@), name_views(kept@)),
    {
        let mut i: usize = 0;
        while i < kept.len()
            invariant
                i <= kept.len(),
                forall|k: int|
                    0 <= k < i ==> views(names@).contains(#[trigger] name_views(kept@)[k]),
            decreases kept.len() - i,
        {
            let mut found = false;
            let mut j: usize = 0;
            while j < names.len() && !found
                invariant
                    j <= names.len(),
                    i < kept.len(),
                    found ==> views(names@).contains(name_views(kept@)[i as int]),
                    !found ==> forall|k: int|
                        0 <= k < j ==> views(names@)[k] != name_views(kept@)[i as int],
                decreases names.len() - j + if found { 0int } else { 1int },
            {
                if same_text(names[j], kept[i].as_str()) {
                    assert(views(names@)[j as int] == name_views(kept@)[i as int]);
                    found = true;
                } else {
                    j = j + 1;
                }
            }
            if !found {
                assert(!views(names@).contains(name_views(kept@)[i as int]));
                return false;
            }
            i = i + 1;
        }
        true
    }

    /// Renames the selected board and places its columns as the new list
    /// of names says, then reads the summaries anew. The board counts as
    /// viewed and so heads the summaries.
    ///
    /// The new list must hold every column name that the board has.
    pub fn update_selected_board(&mut self, new_board_name: &str, new_column_names: &[&str]) -> (r:
        Result<(), Error>)
        requires
            old(self).wf(),
        ensures
            final(self).wf(),
            old(self).board_updated(
                new_board_name@,
                views(new_column_names@),
                *final(self),
                r,
            ),
    {
        let i = match self.selected.board_index {
            Some(i) => i,
            None => {
                return Err(Error::EmptySelection);
            },
        };
        if i >= self.board_metas.len() {
            return Err(Error::EmptySelection);
        }
        if !Model::all_kept(new_column_names, &self.board_metas[i].columns) {
            return Err(Error::ColumnsRemoved);
        }
        let id = self.board_metas[i].id;
        match self.repo.update_board_columns_order(id, new_board_name, new_column_names) {
            Ok(_) => {
                self.board_metas = self.repo.get_board_metas();
                Ok(())
            },
            Err(e) => Err(e),
        }
    }

    /// Opens the deletion dialog, with "No" highlighted.
    pub fn confirm_card_delete(&mut self) -> (r: Result<(), Error>)
        ensures
            r is Ok,
            *final(self) == (Model {
                mode: Mode::ConfirmCardDeletion,
                confirmation_state: ConfirmationState::No,
                ..*old(self)
            }),
    {
        self.mode = Mode::ConfirmCardDeletion;
        self.confirmation_state = ConfirmationState::No;
        Ok(())
    }

    /// Adds a column called `column_name` to the loaded board, in the store
    /// and in memory, unless there is one already.
    pub fn create_column(&mut self, column_name: &str) -> (r: Result<(), Error>)
        requires
            old(self).wf(),
        ensures
            final(self).wf(),
            *final(self) == (Model {
                board: final(self).board,
                repo: final(self).repo,
                ..*old(self)
            }),
            match old(self).board {
                None => r == Err::<(), Error>(Error::EmptySelection) && final(self).repo == old(
                    self,
                ).repo && final(self).board is None,
                Some(board) => {
                    &&& final(self).repo@ == old(self).repo@.ensure_column_result(
                        board.id,
                        column_name@,
                    )
                    &&& match r {
                        Ok(_) => {
                            &&& old(self).repo@.add_column_error(board.id, column_name@) is None
                            &&& final(self).board is Some
                            &&& final(self).board->0.id == board.id
                            &&& final(self).board->0.name == board.name
                            &&& if has_column_named(board, column_name@) {
                                final(self).board->0.columns == board.columns
                            } else {
                                let columns = final(self).board->0.columns@;
                                &&& columns.len() == board.columns@.len() + 1
                                &&& columns.drop_last() == board.columns@
                                &&& columns.last().name@ == column_name@
                                &&& columns.last().cards@.len() == 0
                            }
                        },
                        Err(e) => old(self).repo@.add_column_error(board.id, column_name@) == Some(
                            e,
                        ) && final(self).board == old(self).board,
                    }
                },
            },
    {
        match &mut self.board {
            None => Err(Error::EmptySelection),
            Some(board) => {
                match self.repo.create_column_for_board(board.id, column_name) {
                    Err(e) => Err(e),
                    Ok(column) => {
                        let mut found = false;
                        let mut j: usize = 0;
                        while j < board.columns.len() && !found
                            invariant
                                j <= board.columns@.len(),
                                found ==> has_column_named(*board, column_name@),
                                !found ==> forall|k: int|
                                    0 <= k < j ==> board.columns@[k].name@ != column_name@,
                            decreases board.columns@.len() - j + if found { 0int } else { 1int },
                        {
                            if same_text(board.columns[j].name.as_str(), column_name) {
                                assert(board.columns@[j as int].name@ == column_name@);
                                found = true;
                            } else {
                                j = j + 1;
                            }
                        }
                        if !found {
                            let ghost before = board.columns@;
                            board.columns.push(column);
                            assert(board.columns@.drop_last() =~= before);
                        }
                        Ok(())
                    },
                }
            },
        }
    }

    /// Moves the selected card one column to the left or to the right, in
    /// the store and in memory, and selects it at the top of its new column.
    ///
    /// Nothing happens where no card is selected or the board has no column
    /// on that side.
    pub fn relocate_selected_card(&mut self, left: bool) -> (r: Result<(), Error>)
        requires
            old(self).wf(),
        ensures
            final(self).wf(),
            old(self).relocated(left, *final(self), r),
    {
        let from = self.selected.column_index;
        let card_id = match self.selected_card_id() {
            Some(id) => id,
            None => {
                return Ok(());
            },
        };
        let i = match self.selected.card_index {
            Some(i) => i,
            None => {
                return Ok(());
            },
        };
        match &mut self.board {
            None => Ok(()),
            Some(board) => {
                let to = if left {
                    if from == 0 {
                        return Ok(());
                    }
                    from - 1
                } else {
                    if from >= board.columns.len() || board.columns.len() - from <= 1 {
                        return Ok(());
                    }
                    from + 1
                };
                match self.repo.set_card_status(
                    board.id,
                    card_id,
                    board.columns[to].name.as_str(),
                ) {
                    Err(e) => Err(e),
                    Ok(_) => {
                        let card = board.columns[from].cards.remove(i);
                        board.columns[to].cards.insert(0, card);
                        self.selected.column_index = to;
                        self.selected.card_index = Some(0);
                        Ok(())
                    },
                }
            },
        }
    }
}

} // verus!
