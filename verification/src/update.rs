//! The step of the session: a message, read in the current mode, changes
//! the selection, the store, or the mode.
//!
//! Where a step needs text from the user's editor, the text that the editor
//! starts from is computed first, and the step takes what the editor gave.

use vstd::prelude::*;
use crate::board::Card;
use crate::coherence::{coherent, law_step_keeps_agreement};
use crate::error::Error;
use crate::mode::{
    Action,
    ConfirmationState,
    ERROR_SECONDS,
    Event,
    InternalEvent,
    Key,
    Message,
    Mode,
    RunningState,
    event_message,
};
use crate::model::{Model, SelectedState, card_prepended, card_rewritten, columns_sorted, first_card, same_but_cards};
use crate::tables::card_view;
use crate::text::{
    board_template,
    board_text,
    card_template,
    card_text,
    board_columns,
    has_heading,
    heading_text,
    new_board_template,
    new_board_text,
    new_card_template,
    new_card_text,
    parse_raw_board_text,
    parse_raw_card_text,
    text_after_heading,
};

verus! {

/// The result of a step without what the host has to do.
pub open spec fn plain(out: Result<Action, Error>) -> Result<(), Error> {
    match out {
        Ok(_) => Ok(()),
        Err(e) => Err(e),
    }
}

/// A step that succeeded leaves nothing for the host to do.
pub open spec fn quiet(out: Result<Action, Error>) -> bool {
    out matches Ok(action) ==> action == Action::Nothing
}

/// The text that the editor starts from, where the step needs the editor.
pub open spec fn editor_text(pre: Model, msg: Message) -> Option<Seq<char>> {
    match (pre.mode, msg) {
        (Mode::ViewingBoard, Message::NewCard) => Some(new_card_text()),
        (Mode::ViewingBoard, Message::EditCard) => match pre.spec_selected_card() {
            Some(card) => Some(card_text(card.title@, card.body@)),
            None => None,
        },
        (Mode::ViewingBoards, Message::NewBoard) => Some(new_board_text()),
        (Mode::ViewingBoards, Message::EditBoard) => match pre.spec_selected_meta() {
            Some(meta) => Some(board_text(meta.name@, meta@.columns)),
            None => None,
        },
        _ => None,
    }
}

/// An error is put on display, or the display is cleared.
pub open spec fn error_set(
    pre: Model,
    error: Option<String>,
    post: Model,
    out: Result<Action, Error>,
) -> bool {
    &&& post == (Model { error, ..pre })
    &&& out == Ok::<Action, Error>(
        if error is Some {
            Action::ClearErrorAfter(ERROR_SECONDS)
        } else {
            Action::Nothing
        },
    )
}

/// A card is created from the text `reply` and put on top of the first
/// column; the session is unchanged where the editor failed or the text has
/// no heading, and changed in nothing but the store where the store refuses.
pub open spec fn card_added(
    pre: Model,
    reply: Result<String, Error>,
    post: Model,
    out: Result<Action, Error>,
) -> bool {
    match reply {
        Err(e) => out == Err::<Action, Error>(e) && post == pre,
        Ok(text) => if !has_heading(text@) {
            out == Err::<Action, Error>(Error::CardTextMalformed) && post == pre
        } else {
            let title = heading_text(text@);
            let body = text_after_heading(text@);
            let id = pre.selected.board_id;
            &&& post.repo@ == pre.repo@.insert_card_result(id, title, body)
            &&& match pre.repo@.insert_card_error(id) {
                Some(e) => out == Err::<Action, Error>(e) && post == (Model {
                    repo: post.repo,
                    ..pre
                }),
                None => {
                    &&& out == Ok::<Action, Error>(Action::Nothing)
                    &&& post == (Model {
                        repo: post.repo,
                        board: post.board,
                        mode: Mode::ViewingBoard,
                        selected: SelectedState {
                            column_index: 0,
                            card_index: if pre.column_count() > 0 {
                                Some(0)
                            } else {
                                None
                            },
                            ..pre.selected
                        },
                        ..pre
                    })
                    &&& if pre.column_count() > 0 {
                        &&& post.board is Some
                        &&& post.cards_at(0).len() > 0
                        &&& card_prepended(pre.board->0, post.board->0, 0, post.cards_at(0)[0])
                        &&& post.cards_at(0)[0]@ == card_view(pre.repo@.new_card(id, title, body))
                    } else {
                        post.board == pre.board
                    }
                },
            }
        },
    }
}

/// The selected card `card` receives the title and body of the text
/// `reply`, in the store and in memory.
pub open spec fn card_edited(
    pre: Model,
    card: Card,
    reply: Result<String, Error>,
    post: Model,
    out: Result<Action, Error>,
) -> bool {
    match reply {
        Err(e) => out == Err::<Action, Error>(e) && post == pre,
        Ok(text) => if !has_heading(text@) {
            out == Err::<Action, Error>(Error::CardTextMalformed) && post == pre
        } else {
            let title = heading_text(text@);
            let body = text_after_heading(text@);
            let at = pre.selected.column_index as int;
            let i = pre.selected.card_index->0 as int;
            &&& post.repo@ == pre.repo@.update_card_result(card.id, title, body)
            &&& match pre.repo@.update_card_error(card.id) {
                Some(e) => out == Err::<Action, Error>(e) && post == (Model {
                    repo: post.repo,
                    ..pre
                }),
                None => {
                    &&& out == Ok::<Action, Error>(Action::Nothing)
                    &&& post == (Model {
                        repo: post.repo,
                        board: post.board,
                        mode: Mode::ViewingBoard,
                        ..pre
                    })
                    &&& post.board is Some
                    &&& same_but_cards(pre.board->0, post.board->0, at, at)
                    &&& post.cards_at(at).len() == pre.cards_at(at).len()
                    &&& forall|k: int|
                        0 <= k < pre.cards_at(at).len() && k != i ==> post.cards_at(at)[k]
                            == pre.cards_at(at)[k]
                    &&& card_rewritten(
                        card,
                        post.cards_at(at)[i],
                        title,
                        body,
                        pre.repo@.stamp(),
                    )
                },
            }
        },
    }
}

/// A board is created from the text `reply`, the summaries are read anew
/// and the first of them is selected.
pub open spec fn board_added(
    pre: Model,
    reply: Result<String, Error>,
    post: Model,
    out: Result<Action, Error>,
) -> bool {
    match reply {
        Err(e) => out == Err::<Action, Error>(e) && post == pre,
        Ok(text) => if !has_heading(text@) {
            out == Err::<Action, Error>(Error::BoardNameMissing) && post == pre
        } else if board_columns(text@).len() == 0 {
            out == Err::<Action, Error>(Error::BoardColumnsMissing) && post == pre
        } else {
            let mid = Model { selected: pre.selected, ..post };
            &&& quiet(out)
            &&& pre.board_created(heading_text(text@), board_columns(text@), mid, plain(out))
            &&& post.selected == if out is Ok && post.board_metas@.len() > 0 {
                mid.board_selected(Some(0))
            } else {
                pre.selected
            }
        },
    }
}

/// The selected board is renamed and its columns are placed as the text
/// `reply` lists them; the summaries are read anew and the first of them,
/// which is the board that was edited, is selected.
pub open spec fn board_edited(
    pre: Model,
    reply: Result<String, Error>,
    post: Model,
    out: Result<Action, Error>,
) -> bool {
    match reply {
        Err(e) => out == Err::<Action, Error>(e) && post == pre,
        Ok(text) => if !has_heading(text@) {
            out == Err::<Action, Error>(Error::BoardNameMissing) && post == pre
        } else if board_columns(text@).len() == 0 {
            out == Err::<Action, Error>(Error::BoardColumnsMissing) && post == pre
        } else {
            let mid = Model { selected: pre.selected, ..post };
            &&& quiet(out)
            &&& pre.board_updated(heading_text(text@), board_columns(text@), mid, plain(out))
            &&& post.selected == if out is Ok && post.board_metas@.len() > 0 {
                mid.board_selected(Some(0))
            } else {
                pre.selected
            }
        },
    }
}

/// The selected board is loaded and shown, with the top card of its first
/// column selected; nothing happens where the picker selects no board.
pub open spec fn board_entered(pre: Model, post: Model, out: Result<Action, Error>) -> bool {
    match pre.spec_selected_meta() {
        None => out == Ok::<Action, Error>(Action::Nothing) && post == pre,
        Some(_) => {
            let mid = Model {
                mode: pre.mode,
                board_metas: pre.board_metas,
                selected: pre.selected,
                ..post
            };
            &&& quiet(out)
            &&& pre.board_loaded(mid, plain(out))
            &&& match out {
                Err(_) => post == mid,
                Ok(_) => {
                    &&& post.mode == Mode::ViewingBoard
                    &&& post.board_metas@.len() == 0
                    &&& post.selected == (SelectedState {
                        column_index: 0,
                        card_index: first_card(post.board->0),
                        ..pre.selected
                    })
                },
            }
        },
    }
}

/// The cards of every column are put newest first and the board is shown.
pub open spec fn move_ended(pre: Model, post: Model) -> bool {
    &&& post == (Model { mode: Mode::ViewingBoard, board: post.board, ..pre })
    &&& match pre.board {
        None => post.board is None,
        Some(board) => post.board is Some && columns_sorted(board, post.board->0),
    }
}

/// The answer of the deletion dialog is carried out: on "Yes" the selected
/// card goes, on "No" nothing goes; either way the board is shown again and
/// the dialog starts from "No" next time.
pub open spec fn choice_confirmed(pre: Model, post: Model) -> bool {
    match pre.confirmation_state {
        ConfirmationState::No => post == (Model { mode: Mode::ViewingBoard, ..pre }),
        ConfirmationState::Yes => {
            &&& post.mode == Mode::ViewingBoard
            &&& post.confirmation_state == ConfirmationState::No
            &&& pre.card_deleted(
                Model { mode: pre.mode, confirmation_state: pre.confirmation_state, ..post },
            )
        },
    }
}

/// What a step does: `post` and `out` are what comes of `pre` on `msg`,
/// where `reply` is what the editor gave, if the step asked for it.
pub open spec fn stepped(
    pre: Model,
    msg: Message,
    reply: Option<Result<String, Error>>,
    post: Model,
    out: Result<Action, Error>,
) -> bool {
    match msg {
        Message::Quit => out == Ok::<Action, Error>(Action::Nothing) && post == (Model {
            running_state: RunningState::Done,
            ..pre
        }),
        Message::SetError(error) => error_set(pre, error, post, out),
        Message::ViewBoardMode => match pre.mode {
            Mode::ViewingBoards => board_entered(pre, post, out),
            Mode::MovingCard => out == Ok::<Action, Error>(Action::Nothing) && move_ended(pre, post),
            _ => out == Ok::<Action, Error>(Action::Nothing) && post == (Model {
                mode: Mode::ViewingBoard,
                ..pre
            }),
        },
        Message::NavigateLeft => out == Ok::<Action, Error>(Action::Nothing) && post == (
        if pre.mode == Mode::ConfirmCardDeletion {
            Model { confirmation_state: pre.confirmation_state.toggled(), ..pre }
        } else {
            Model { selected: pre.selected_at(pre.selected.column_index - 1), ..pre }
        }),
        Message::NavigateRight => out == Ok::<Action, Error>(Action::Nothing) && post == (
        if pre.mode == Mode::ConfirmCardDeletion {
            Model { confirmation_state: pre.confirmation_state.toggled(), ..pre }
        } else {
            Model { selected: pre.selected_at(pre.selected.column_index + 1), ..pre }
        }),
        Message::NavigateDown => out == Ok::<Action, Error>(Action::Nothing) && post == (
        if pre.mode == Mode::ViewingBoards {
            Model { selected: pre.board_selected(pre.board_index_after_down()), ..pre }
        } else {
            Model {
                selected: SelectedState {
                    card_index: crate::model::card_after_down(
                        pre.selected.card_index,
                        match pre.spec_selected_column() {
                            Some(column) => Some(column.cards@.len()),
                            None => None,
                        },
                    ),
                    ..pre.selected
                },
                ..pre
            }
        }),
        Message::NavigateUp => out == Ok::<Action, Error>(Action::Nothing) && post == (
        if pre.mode == Mode::ViewingBoards {
            Model {
                selected: pre.board_selected(
                    crate::model::index_after_up(pre.selected.board_index),
                ),
                ..pre
            }
        } else {
            Model {
                selected: SelectedState {
                    card_index: crate::model::index_after_up(pre.selected.card_index),
                    ..pre.selected
                },
                ..pre
            }
        }),
        Message::MoveCardMode => out == Ok::<Action, Error>(Action::Nothing) && post == (
        if pre.spec_selected_card() is Some {
            Model { mode: Mode::MovingCard, ..pre }
        } else {
            pre
        }),
        Message::ViewCardDetailMode => out == Ok::<Action, Error>(Action::Nothing) && post == (
        if pre.spec_selected_column() matches Some(column) && column.cards@.len() > 0 {
            Model { mode: Mode::ViewingCardDetail, ..pre }
        } else {
            pre
        }),
        Message::DeleteCard => out == Ok::<Action, Error>(Action::Nothing) && post == (
        if pre.spec_selected_card() is Some {
            Model {
                mode: Mode::ConfirmCardDeletion,
                confirmation_state: ConfirmationState::No,
                ..pre
            }
        } else {
            pre
        }),
        Message::ViewBoardsMode => out == Ok::<Action, Error>(Action::Nothing)
            && pre.switched_to_boards(post),
        Message::MoveCardLeft => quiet(out) && pre.relocated(true, post, plain(out)),
        Message::MoveCardRight => quiet(out) && pre.relocated(false, post, plain(out)),
        Message::ConfirmChoice => out == Ok::<Action, Error>(Action::Nothing) && choice_confirmed(
            pre,
            post,
        ),
        Message::NewCard => reply matches Some(r) && card_added(pre, r, post, out),
        Message::EditCard => match pre.spec_selected_card() {
            None => out == Ok::<Action, Error>(Action::Nothing) && post == (Model {
                mode: Mode::ViewingBoard,
                ..pre
            }),
            Some(card) => reply matches Some(r) && card_edited(pre, card, r, post, out),
        },
        Message::NewBoard => reply matches Some(r) && board_added(pre, r, post, out),
        Message::EditBoard => match pre.spec_selected_meta() {
            None => out == Ok::<Action, Error>(Action::Nothing) && post == pre,
            Some(_) => reply matches Some(r) && board_edited(pre, r, post, out),
        },
    }
}

/// The text that the editor is to start from, where the step on `msg` needs
/// the editor.
pub fn editor_template(model: &Model, msg: &Message) -> (r: Option<String>)
    ensures
        match r {
            Some(text) => editor_text(*model, *msg) == Some(text@),
            None => editor_text(*model, *msg) is None,
        },
{
    match (model.mode, msg) {
        (Mode::ViewingBoard, Message::NewCard) => Some(new_card_template()),
        (Mode::ViewingBoard, Message::EditCard) => match model.selected_card() {
            Some(card) => Some(card_template(card.title.as_str(), card.body.as_str())),
            None => None,
        },
        (Mode::ViewingBoards, Message::NewBoard) => Some(new_board_template()),
        (Mode::ViewingBoards, Message::EditBoard) => match model.selected.board_index {
            Some(i) => {
                if i < model.board_metas.len() {
                    let meta = &model.board_metas[i];
                    Some(board_template(meta.name.as_str(), &meta.columns))
                } else {
                    None
                }
            },
            None => None,
        },
        _ => None,
    }
}

/// Creates a card from the text that the editor gave.
fn add_card(model: &mut Model, reply: Result<String, Error>) -> (out: Result<Action, Error>)
    requires
        old(model).wf(),
    ensures
        final(model).wf(),
        card_added(*old(model), reply, *final(model), out),
{
    let text = match reply {
        Ok(text) => text,
        Err(e) => {
            return Err(e);
        },
    };
    let (title, body) = match parse_raw_card_text(text.as_str()) {
        Ok(parts) => parts,
        Err(e) => {
            return Err(e);
        },
    };
    let card = match model.repo.insert_card(model.selected.board_id, title, body) {
        Ok(card) => card,
        Err(e) => {
            return Err(e);
        },
    };
    model.mode = Mode::ViewingBoard;
    model.selected.column_index = 0;
    model.selected.card_index = None;
    match &mut model.board {
        Some(board) => {
            if board.columns.len() > 0 {
                board.columns[0].cards.insert(0, card);
                model.selected.card_index = Some(0);
            }
        },
        None => {},
    }
    Ok(Action::Nothing)
}

/// Rewrites the selected card from the text that the editor gave.
fn edit_card(model: &mut Model, reply: Result<String, Error>) -> (out: Result<Action, Error>)
    requires
        old(model).wf(),
        old(model).spec_selected_card() is Some,
    ensures
        final(model).wf(),
        card_edited(
            *old(model),
            old(model).spec_selected_card()->0,
            reply,
            *final(model),
            out,
        ),
{
    let text = match reply {
        Ok(text) => text,
        Err(e) => {
            return Err(e);
        },
    };
    let (title, body) = match parse_raw_card_text(text.as_str()) {
        Ok(parts) => parts,
        Err(e) => {
            return Err(e);
        },
    };
    let id = match model.selected_card_id() {
        Some(id) => id,
        None => {
            return Ok(Action::Nothing);
        },
    };
    let stamp = match model.repo.update_card(id, title, body) {
        Ok(stamp) => stamp,
        Err(e) => {
            return Err(e);
        },
    };
    model.rewrite_selected_card(title, body, stamp);
    model.mode = Mode::ViewingBoard;
    Ok(Action::Nothing)
}

/// Creates a board from the text that the editor gave.
fn add_board(model: &mut Model, reply: Result<String, Error>) -> (out: Result<Action, Error>)
    requires
        old(model).wf(),
    ensures
        final(model).wf(),
        board_added(*old(model), reply, *final(model), out),
{
    let text = match reply {
        Ok(text) => text,
        Err(e) => {
            return Err(e);
        },
    };
    let (name, columns) = match parse_raw_board_text(text.as_str()) {
        Ok(parts) => parts,
        Err(e) => {
            return Err(e);
        },
    };
    match model.create_board(name, columns.as_slice()) {
        Ok(_) => {
            if model.board_metas.len() > 0 {
                model.selected.board_index = Some(0);
                model.selected.board_id = model.board_metas[0].id;
            }
            Ok(Action::Nothing)
        },
        Err(e) => Err(e),
    }
}

/// Renames and rearranges the selected board from the text that the editor
/// gave.
fn edit_board(model: &mut Model, reply: Result<String, Error>) -> (out: Result<Action, Error>)
    requires
        old(model).wf(),
    ensures
        final(model).wf(),
        board_edited(*old(model), reply, *final(model), out),
{
    let text = match reply {
        Ok(text) => text,
        Err(e) => {
            return Err(e);
        },
    };
    let (name, columns) = match parse_raw_board_text(text.as_str()) {
        Ok(parts) => parts,
        Err(e) => {
            return Err(e);
        },
    };
    match model.update_selected_board(name, columns.as_slice()) {
        Ok(_) => {
            if model.board_metas.len() > 0 {
                model.selected.board_index = Some(0);
                model.selected.board_id = model.board_metas[0].id;
            }
            Ok(Action::Nothing)
        },
        Err(e) => Err(e),
    }
}

/// Loads and shows the board that the picker selects.
fn enter_board(model: &mut Model) -> (out: Result<Action, Error>)
    requires
        old(model).wf(),
    ensures
        final(model).wf(),
        board_entered(*old(model), *final(model), out),
{
    match model.selected.board_index {
        Some(i) => {
            if i >= model.board_metas.len() {
                return Ok(Action::Nothing);
            }
        },
        None => {
            return Ok(Action::Nothing);
        },
    }
    match model.load_selected_board() {
        Err(e) => Err(e),
        Ok(_) => {
            model.mode = Mode::ViewingBoard;
            model.board_metas = Vec::new();
            model.selected.column_index = 0;
            model.selected.card_index = None;
            match &model.board {
                Some(board) => {
                    if board.columns.len() > 0 && board.columns[0].cards.len() > 0 {
                        model.selected.card_index = Some(0);
                    }
                },
                None => {},
            }
            Ok(Action::Nothing)
        },
    }
}

/// Carries out the answer of the deletion dialog.
fn confirm_choice(model: &mut Model)
    requires
        old(model).wf(),
    ensures
        final(model).wf(),
        choice_confirmed(*old(model), *final(model)),
{
    match model.confirmation_state {
        ConfirmationState::Yes => {
            let _ = model.delete_selected_card();
            model.mode = Mode::ViewingBoard;
            model.confirmation_state = ConfirmationState::No;
        },
        ConfirmationState::No => {
            model.mode = Mode::ViewingBoard;
        },
    }
}

/// Carries out one step: reads `msg` in the current mode and changes the
/// session accordingly. `reply` is what the editor gave for the text of
/// [`editor_template`]; it is there exactly where that text is.
///
/// A failure leaves the session as it was; the host puts it on display with
/// `Message::SetError`.
pub fn step(model: &mut Model, msg: Message, reply: Option<Result<String, Error>>) -> (out: Result<
    Action,
    Error,
>)
    requires
        old(model).wf(),
        old(model).mode.spec_accepts(&msg),
        reply is Some <==> editor_text(*old(model), msg) is Some,
    ensures
        final(model).wf(),
        stepped(*old(model), msg, reply, *final(model), out),
        old(model).cursor_ok() ==> final(model).cursor_ok(),
        coherent(*old(model)) ==> coherent(*final(model)),
{
    let ghost pre = *model;
    let out = step_on(model, msg, reply);
    proof {
        if pre.cursor_ok() {
            crate::laws::law_selection_stays_valid(pre, msg, reply, *model, out);
        }
        if coherent(pre) {
            law_step_keeps_agreement(pre, msg, reply, *model, out);
        }
    }
    out
}

/// Carries out one step.
fn step_on(model: &mut Model, msg: Message, reply: Option<Result<String, Error>>) -> (out: Result<
    Action,
    Error,
>)
    requires
        old(model).wf(),
        old(model).mode.spec_accepts(&msg),
        reply is Some <==> editor_text(*old(model), msg) is Some,
    ensures
        final(model).wf(),
        stepped(*old(model), msg, reply, *final(model), out),
{
    match msg {
        Message::Quit => {
            model.running_state = RunningState::Done;
            Ok(Action::Nothing)
        },
        Message::SetError(error) => {
            let action = if error.is_some() {
                Action::ClearErrorAfter(ERROR_SECONDS)
            } else {
                Action::Nothing
            };
            model.error = error;
            Ok(action)
        },
        Message::ViewBoardMode => match model.mode {
            Mode::ViewingBoards => enter_board(model),
            Mode::MovingCard => {
                model.sort_columns();
                model.mode = Mode::ViewingBoard;
                Ok(Action::Nothing)
            },
            _ => {
                model.mode = Mode::ViewingBoard;
                Ok(Action::Nothing)
            },
        },
        Message::NavigateLeft => {
            match model.mode {
                Mode::ConfirmCardDeletion => model.toggle_confirmation_state(),
                _ => model.navigate_left(),
            }
            Ok(Action::Nothing)
        },
        Message::NavigateRight => {
            match model.mode {
                Mode::ConfirmCardDeletion => model.toggle_confirmation_state(),
                _ => model.navigate_right(),
            }
            Ok(Action::Nothing)
        },
        Message::NavigateDown => {
            match model.mode {
                Mode::ViewingBoards => model.navigate_boards_down(),
                _ => model.navigate_down(),
            }
            Ok(Action::Nothing)
        },
        Message::NavigateUp => {
            match model.mode {
                Mode::ViewingBoards => model.navigate_boards_up(),
                _ => model.navigate_up(),
            }
            Ok(Action::Nothing)
        },
        Message::MoveCardMode => {
            if model.selected_card().is_some() {
                model.mode = Mode::MovingCard;
            }
            Ok(Action::Nothing)
        },
        Message::ViewCardDetailMode => {
            let shown = match model.selected_column() {
                Some(column) => column.cards.len() > 0,
                None => false,
            };
            if shown {
                model.mode = Mode::ViewingCardDetail;
            }
            Ok(Action::Nothing)
        },
        Message::DeleteCard => {
            if model.selected_card().is_some() {
                let _ = model.confirm_card_delete();
            }
            Ok(Action::Nothing)
        },
        Message::ViewBoardsMode => {
            let _ = model.switch_to_viewing_boards_mode();
            Ok(Action::Nothing)
        },
        Message::MoveCardLeft => match move_selected_card_left(model) {
            Ok(_) => Ok(Action::Nothing),
            Err(e) => Err(e),
        },
        Message::MoveCardRight => match move_selected_card_right(model) {
            Ok(_) => Ok(Action::Nothing),
            Err(e) => Err(e),
        },
        Message::ConfirmChoice => {
            confirm_choice(model);
            Ok(Action::Nothing)
        },
        Message::NewCard => match reply {
            Some(r) => add_card(model, r),
            None => Ok(Action::Nothing),
        },
        Message::EditCard => match reply {
            Some(r) => edit_card(model, r),
            None => {
                model.mode = Mode::ViewingBoard;
                Ok(Action::Nothing)
            },
        },
        Message::NewBoard => match reply {
            Some(r) => add_board(model, r),
            None => Ok(Action::Nothing),
        },
        Message::EditBoard => match reply {
            Some(r) => edit_board(model, r),
            None => Ok(Action::Nothing),
        },
    }
}

/// Moves the selected card one column to the left, in the store and in
/// memory. Nothing happens in the leftmost column or without a card.
pub fn move_selected_card_left(model: &mut Model) -> (r: Result<(), Error>)
    requires
        old(model).wf(),
    ensures
        final(model).wf(),
        old(model).relocated(true, *final(model), r),
{
    model.relocate_selected_card(true)
}

/// Moves the selected card one column to the right, in the store and in
/// memory. Nothing happens in the rightmost column or without a card.
pub fn move_selected_card_right(model: &mut Model) -> (r: Result<(), Error>)
    requires
        old(model).wf(),
    ensures
        final(model).wf(),
        old(model).relocated(false, *final(model), r),
{
    model.relocate_selected_card(false)
}

/// Carries out one step, asking `run_editor_fn` for edited text where the
/// step needs it: the function is called once, with the text to start from,
/// for a new or edited card or board, and not at all otherwise.
pub fn update_with_run_editor_fn<F: Fn(&str) -> Result<String, Error>>(
    model: &mut Model,
    msg: Message,
    run_editor_fn: F,
) -> (out: Result<Action, Error>)
    requires
        old(model).wf(),
        old(model).mode.spec_accepts(&msg),
        forall|template: &str| run_editor_fn.requires((template,)),
    ensures
        final(model).wf(),
        match editor_text(*old(model), msg) {
            None => stepped(*old(model), msg, None, *final(model), out),
            Some(text) => exists|template: &str, reply: Result<String, Error>|
                {
                    &&& template@ == text
                    &&& #[trigger] run_editor_fn.ensures((template,), reply)
                    &&& stepped(*old(model), msg, Some(reply), *final(model), out)
                },
        },
        old(model).cursor_ok() ==> final(model).cursor_ok(),
        coherent(*old(model)) ==> coherent(*final(model)),
{
    match editor_template(model, &msg) {
        Some(template) => {
            let reply = run_editor_fn(template.as_str());
            let ghost pre = *model;
            let out = step(model, msg, Some(reply));
            assert(stepped(pre, msg, Some(reply), *model, out));
            out
        },
        None => step(model, msg, None),
    }
}

/// Carries out one step that needs no editor.
///
/// This function has no way to ask for edited text: on the four messages
/// that need it (a new or edited card or board, see [`editor_template`]) it
/// fails with `Error::Editor` and changes nothing. Those steps are carried
/// out by [`update_with_run_editor_fn`], which is handed the editor, or by
/// [`editor_template`] and [`step`], which take the edited text as a value.
pub fn update(model: &mut Model, msg: Message) -> (out: Result<Action, Error>)
    requires
        old(model).wf(),
        old(model).mode.spec_accepts(&msg),
    ensures
        final(model).wf(),
        match editor_text(*old(model), msg) {
            None => stepped(*old(model), msg, None, *final(model), out),
            Some(_) => out matches Err(Error::Editor(_)) && *final(model) == *old(model),
        },
        old(model).cursor_ok() ==> final(model).cursor_ok(),
        coherent(*old(model)) ==> coherent(*final(model)),
{
    match editor_template(model, &msg) {
        Some(_) => {
            let out = step(model, msg, Some(Err(Error::Editor("no editor at hand".to_owned()))));
            out
        },
        None => step(model, msg, None),
    }
}

/// The message that `event` stands for in the session's current mode.
pub fn handle_event(event: Event, model: &Model) -> (r: Option<Message>)
    ensures
        r == event_message(model.mode, event),
        r matches Some(msg) ==> model.mode.spec_accepts(&msg),
{
    match event {
        Event::KeyEvent(key) => match model.mode {
            Mode::ViewingBoard => match key {
                Key::Char('h') | Key::Left => Some(Message::NavigateLeft),
                Key::Char('j') | Key::Down => Some(Message::NavigateDown),
                Key::Char('k') | Key::Up => Some(Message::NavigateUp),
                Key::Char('l') | Key::Right => Some(Message::NavigateRight),
                Key::Char('q') => Some(Message::Quit),
                Key::Char('m') => Some(Message::MoveCardMode),
                Key::Char('n') => Some(Message::NewCard),
                Key::Char('e') => Some(Message::EditCard),
                Key::Char('d') => Some(Message::DeleteCard),
                Key::Char('b') => Some(Message::ViewBoardsMode),
                Key::Enter => Some(Message::ViewCardDetailMode),
                _ => None,
            },
            Mode::MovingCard => match key {
                Key::Char('h') | Key::Left => Some(Message::MoveCardLeft),
                Key::Char('l') | Key::Right => Some(Message::MoveCardRight),
                Key::Char('q') => Some(Message::Quit),
                Key::Char('m') | Key::Enter | Key::Esc => Some(Message::ViewBoardMode),
                _ => None,
            },
            Mode::ConfirmCardDeletion => match key {
                Key::Char('h') | Key::Left => Some(Message::NavigateLeft),
                Key::Char('l') | Key::Right => Some(Message::NavigateRight),
                Key::Enter => Some(Message::ConfirmChoice),
                _ => None,
            },
            Mode::ViewingCardDetail => match key {
                Key::Enter | Key::Esc => Some(Message::ViewBoardMode),
                Key::Char('q') => Some(Message::Quit),
                _ => None,
            },
            Mode::ViewingBoards => match key {
                Key::Char('j') | Key::Down => Some(Message::NavigateDown),
                Key::Char('k') | Key::Up => Some(Message::NavigateUp),
                Key::Char('n') => Some(Message::NewBoard),
                Key::Char('e') => Some(Message::EditBoard),
                Key::Char('q') => Some(Message::Quit),
                Key::Enter => Some(Message::ViewBoardMode),
                _ => None,
            },
        },
        Event::InternalEvent(InternalEvent::ClearError) => Some(Message::SetError(None)),
    }
}

} // verus!
