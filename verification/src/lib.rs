//! A personal kanban board: boards own ordered columns, columns hold ordered
//! cards, and a single session navigates and edits them.
//!
//! The store ([`Repo`]) keeps boards, columns and cards consistent; the
//! session ([`Model`]) holds the loaded board, the selection and the mode;
//! [`step`] reads one message in the current mode and changes the session.
//! Where a step needs text from the user's editor, [`editor_template`] gives
//! the text to start from and `step` takes the edited text;
//! [`update_with_run_editor_fn`] does both around an editor that it is
//! handed, and [`update`] serves the steps that need no editor.
//!
//! What each function does is stated in its contract and proved. What holds
//! of the library as a whole is stated in [`laws`] and [`coherence`]: the
//! selection never points past what exists, and the loaded board and the
//! store stay in step.

pub mod board;
pub mod coherence;
pub mod error;
pub mod laws;
pub mod mode;
pub mod model;
mod order;
pub mod repo;
pub mod restore;
pub mod screen;
pub mod tables;
pub mod text;
pub mod update;

pub use board::{Board, BoardMeta, Card, Column};
pub use error::{Error, ErrorKind};
pub use mode::{
    Action, ConfirmationState, Event, InternalEvent, Key, Message, Mode, RunningState,
};
pub use model::{Model, SelectedState};
pub use repo::{BoardRow, CardRow, ColumnRow, Counters, Repo};
pub use text::{parse_raw_board_text, parse_raw_card_text};
pub use update::{
    editor_template, handle_event, move_selected_card_left, move_selected_card_right, step,
    update, update_with_run_editor_fn,
};
