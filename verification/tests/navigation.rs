use kk::{
    editor_template, handle_event, move_selected_card_left, move_selected_card_right, step,
    update, update_with_run_editor_fn, Action, Board, Card, Column, ConfirmationState, Error,
    ErrorKind, Event, InternalEvent, Key, Message, Mode, Model, Repo, RunningState,
};

fn text(s: &str) -> impl Fn(&str) -> Result<String, Error> + '_ {
    move |_template: &str| Ok(s.to_string())
}

/// A session on a board "Work" with the columns Todo, Doing and Done, and
/// three cards in Todo, newest on top.
fn working_model() -> Model {
    let mut repo = Repo::new();
    let id = repo.create_board("Work", &["Todo", "Doing", "Done"]).unwrap();
    repo.insert_card(id, "one", "1").unwrap();
    repo.insert_card(id, "two", "2").unwrap();
    repo.insert_card(id, "three", "3").unwrap();
    Model::new(repo)
}

fn ids(model: &Model, column: usize) -> Vec<u64> {
    model.board.as_ref().unwrap().columns[column].cards.iter().map(|c| c.id).collect()
}

fn stored_ids(model: &Model, column: &str) -> Vec<u64> {
    let id = model.board.as_ref().unwrap().id;
    model.repo.cards_for_column(id, column).iter().map(|c| c.id).collect()
}

#[test]
fn session_starts_on_the_board_viewed_last() {
    let model = working_model();
    assert_eq!(model.mode, Mode::ViewingBoard);
    assert_eq!(model.running_state, RunningState::Running);
    assert_eq!(model.confirmation_state, ConfirmationState::No);
    assert_eq!(model.board.as_ref().unwrap().name, "Work");
    assert_eq!(model.selected.board_id, 2);
    assert_eq!(model.selected.column_index, 0);
    assert_eq!(model.selected.card_index, Some(0));
    assert_eq!(ids(&model, 0), vec![3, 2, 1]);
    assert!(model.error.is_none());
}

#[test]
fn session_without_boards_starts_in_the_picker() {
    let model = Model::new(Repo::empty());
    assert_eq!(model.mode, Mode::ViewingBoards);
    assert!(model.board.is_none());
    assert_eq!(model.selected.board_index, None);
    assert_eq!(model.selected.card_index, None);
}

#[test]
fn moving_past_the_edges_changes_nothing() {
    let mut model = working_model();
    update(&mut model, Message::MoveCardMode).unwrap();
    let selected = model.selected;
    let clock = model.repo.counters().clock;

    // leftmost column: no move to the left
    update(&mut model, Message::MoveCardLeft).unwrap();
    assert_eq!(model.selected, selected);
    assert_eq!(ids(&model, 0), vec![3, 2, 1]);
    assert_eq!(stored_ids(&model, "Todo"), vec![3, 2, 1]);
    assert_eq!(model.repo.counters().clock, clock);
    assert_eq!(model.mode, Mode::MovingCard);

    // to the rightmost column, and no further
    update(&mut model, Message::MoveCardRight).unwrap();
    update(&mut model, Message::MoveCardRight).unwrap();
    let selected = model.selected;
    let clock = model.repo.counters().clock;
    assert_eq!((selected.column_index, selected.card_index), (2, Some(0)));
    update(&mut model, Message::MoveCardRight).unwrap();
    assert_eq!(model.selected, selected);
    assert_eq!(ids(&model, 2), vec![3]);
    assert_eq!(stored_ids(&model, "Done"), vec![3]);
    assert_eq!(model.repo.counters().clock, clock);
}

#[test]
fn moved_card_goes_on_top_and_stays_selected() {
    let mut model = working_model();
    update(&mut model, Message::NavigateDown).unwrap();
    update(&mut model, Message::MoveCardMode).unwrap();
    update(&mut model, Message::MoveCardRight).unwrap();
    assert_eq!(ids(&model, 0), vec![3, 1]);
    assert_eq!(ids(&model, 1), vec![2]);
    assert_eq!((model.selected.column_index, model.selected.card_index), (1, Some(0)));
    assert_eq!(stored_ids(&model, "Todo"), vec![3, 1]);
    assert_eq!(stored_ids(&model, "Doing"), vec![2]);

    update(&mut model, Message::ViewBoardMode).unwrap();
    update(&mut model, Message::NavigateLeft).unwrap();
    update(&mut model, Message::NavigateDown).unwrap();
    update(&mut model, Message::MoveCardMode).unwrap();
    update(&mut model, Message::MoveCardRight).unwrap();
    // the card that came last is on top until the move ends
    assert_eq!(ids(&model, 1), vec![1, 2]);
    update(&mut model, Message::ViewBoardMode).unwrap();
    assert_eq!(model.mode, Mode::ViewingBoard);
    assert_eq!(ids(&model, 1), vec![2, 1]);
    assert_eq!(stored_ids(&model, "Doing"), vec![2, 1]);

    move_selected_card_left(&mut model).unwrap();
    assert_eq!(ids(&model, 0), vec![2, 3]);
    move_selected_card_right(&mut model).unwrap();
    assert_eq!(ids(&model, 1), vec![2, 1]);
}

#[test]
fn deletion_dialog_toggles_and_decides() {
    let mut model = working_model();
    update(&mut model, Message::DeleteCard).unwrap();
    assert_eq!(model.mode, Mode::ConfirmCardDeletion);
    assert_eq!(model.confirmation_state, ConfirmationState::No);

    update(&mut model, Message::NavigateLeft).unwrap();
    assert_eq!(model.confirmation_state, ConfirmationState::Yes);
    update(&mut model, Message::NavigateRight).unwrap();
    assert_eq!(model.confirmation_state, ConfirmationState::No);
    update(&mut model, Message::NavigateRight).unwrap();
    update(&mut model, Message::NavigateRight).unwrap();
    assert_eq!(model.confirmation_state, ConfirmationState::No);

    // "No": nothing goes
    update(&mut model, Message::ConfirmChoice).unwrap();
    assert_eq!(model.mode, Mode::ViewingBoard);
    assert_eq!(ids(&model, 0), vec![3, 2, 1]);
    assert_eq!(stored_ids(&model, "Todo"), vec![3, 2, 1]);

    // "Yes": the selected card goes, from memory and from the store
    update(&mut model, Message::NavigateDown).unwrap();
    update(&mut model, Message::DeleteCard).unwrap();
    update(&mut model, Message::NavigateLeft).unwrap();
    update(&mut model, Message::ConfirmChoice).unwrap();
    assert_eq!(model.mode, Mode::ViewingBoard);
    assert_eq!(model.confirmation_state, ConfirmationState::No);
    assert_eq!(ids(&model, 0), vec![3, 1]);
    assert_eq!(stored_ids(&model, "Todo"), vec![3, 1]);
    assert_eq!(model.selected.card_index, Some(1));
}

#[test]
fn deleting_the_last_row_selects_the_row_above() {
    let mut model = working_model();
    update(&mut model, Message::NavigateDown).unwrap();
    update(&mut model, Message::NavigateDown).unwrap();
    update(&mut model, Message::NavigateDown).unwrap();
    assert_eq!(model.selected.card_index, Some(2));
    model.confirmation_state = ConfirmationState::Yes;
    model.delete_selected_card().unwrap();
    assert_eq!(ids(&model, 0), vec![3, 2]);
    assert_eq!(model.selected.card_index, Some(1));
}

#[test]
fn deleting_the_only_card_leaves_nothing_selected() {
    let mut repo = Repo::new();
    let id = repo.create_board("Work", &["Todo"]).unwrap();
    repo.insert_card(id, "one", "1").unwrap();
    let mut model = Model::new(repo);
    assert_eq!(model.selected.card_index, Some(0));

    update(&mut model, Message::DeleteCard).unwrap();
    update(&mut model, Message::NavigateLeft).unwrap();
    update(&mut model, Message::ConfirmChoice).unwrap();

    assert!(model.board.as_ref().unwrap().columns[0].cards.is_empty());
    assert_eq!(model.selected.card_index, None);
    assert!(model.repo.cards().is_empty());
}

#[test]
fn delete_without_a_card_does_not_open_the_dialog() {
    let mut model = Model::new(Repo::new());
    update(&mut model, Message::DeleteCard).unwrap();
    assert_eq!(model.mode, Mode::ViewingBoard);
}

#[test]
fn horizontal_moves_keep_the_row_where_they_can() {
    let mut repo = Repo::new();
    let id = repo.create_board("Work", &["A", "B", "C"]).unwrap();
    for _ in 0..3 {
        repo.insert_card(id, "t", "b").unwrap();
    }
    repo.set_card_status(id, 1, "B").unwrap();
    let mut model = Model::new(repo);
    assert_eq!(ids(&model, 0), vec![3, 2]);
    assert_eq!(ids(&model, 1), vec![1]);

    update(&mut model, Message::NavigateDown).unwrap();
    assert_eq!(model.selected.card_index, Some(1));
    // the shorter column clamps the row
    update(&mut model, Message::NavigateRight).unwrap();
    assert_eq!((model.selected.column_index, model.selected.card_index), (1, Some(0)));
    // an empty column has no row
    update(&mut model, Message::NavigateRight).unwrap();
    assert_eq!((model.selected.column_index, model.selected.card_index), (2, None));
    update(&mut model, Message::NavigateRight).unwrap();
    assert_eq!((model.selected.column_index, model.selected.card_index), (2, None));
    // coming from an empty column the top row is selected
    update(&mut model, Message::NavigateLeft).unwrap();
    assert_eq!((model.selected.column_index, model.selected.card_index), (1, Some(0)));
    update(&mut model, Message::NavigateLeft).unwrap();
    update(&mut model, Message::NavigateLeft).unwrap();
    assert_eq!((model.selected.column_index, model.selected.card_index), (0, Some(0)));
}

#[test]
fn vertical_moves_stop_at_both_ends() {
    let mut model = working_model();
    update(&mut model, Message::NavigateUp).unwrap();
    assert_eq!(model.selected.card_index, Some(0));
    for expected in [1, 2, 2, 2] {
        update(&mut model, Message::NavigateDown).unwrap();
        assert_eq!(model.selected.card_index, Some(expected));
    }
    for expected in [1, 0, 0] {
        update(&mut model, Message::NavigateUp).unwrap();
        assert_eq!(model.selected.card_index, Some(expected));
    }
}

#[test]
fn new_card_goes_on_top_of_the_first_column() {
    let mut model = working_model();
    update(&mut model, Message::NavigateRight).unwrap();
    update_with_run_editor_fn(&mut model, Message::NewCard, text("New\n===\n\nbody")).unwrap();
    assert_eq!(ids(&model, 0), vec![4, 3, 2, 1]);
    assert_eq!((model.selected.column_index, model.selected.card_index), (0, Some(0)));
    let card = model.selected_card().unwrap();
    assert_eq!((card.id, card.number), (4, 4));
    assert_eq!(card.title, "New");
    assert_eq!(card.body, "body");
    assert_eq!(stored_ids(&model, "Todo"), vec![4, 3, 2, 1]);
}

#[test]
fn edit_card_rewrites_memory_and_store() {
    let mut model = working_model();
    let template = editor_template(&model, &Message::EditCard).unwrap();
    assert_eq!(template, "three\n==========\n\n3");

    update_with_run_editor_fn(&mut model, Message::EditCard, text("Changed\n=\n\nnew body"))
        .unwrap();
    let card = model.selected_card().unwrap();
    assert_eq!((card.id, card.title.as_str(), card.body.as_str()), (3, "Changed", "new body"));
    let stored = model.repo.cards_for_column(2, "Todo");
    assert_eq!(stored[0].title, "Changed");
    assert_eq!(stored[0].updated_at, card.updated_at);
    assert!(card.updated_at > card.inserted_at);
}

#[test]
fn editor_is_asked_only_where_text_is_needed() {
    let model = working_model();
    assert_eq!(
        editor_template(&model, &Message::NewCard).unwrap(),
        "Title\n==========\n\nContent goes here"
    );
    assert!(editor_template(&model, &Message::Quit).is_none());
    assert!(editor_template(&model, &Message::NavigateLeft).is_none());
    assert!(editor_template(&model, &Message::NewBoard).is_none());

    let empty = Model::new(Repo::new());
    assert!(editor_template(&empty, &Message::EditCard).is_none());

    let mut called = std::cell::Cell::new(0);
    let mut model = working_model();
    update_with_run_editor_fn(&mut model, Message::NavigateDown, |_t: &str| {
        called.set(called.get() + 1);
        Ok(String::new())
    })
    .unwrap();
    assert_eq!(*called.get_mut(), 0);
    update_with_run_editor_fn(&mut model, Message::EditCard, |t: &str| {
        called.set(called.get() + 1);
        Ok(t.to_string())
    })
    .unwrap();
    assert_eq!(*called.get_mut(), 1);
}

#[test]
fn update_without_an_editor_fails_where_text_is_needed() {
    let mut model = working_model();
    let err = update(&mut model, Message::NewCard).unwrap_err();
    assert_eq!(err.kind(), ErrorKind::Collaborator);
    assert_eq!(ids(&model, 0), vec![3, 2, 1]);
    assert_eq!(model.repo.cards().len(), 3);
}

#[test]
fn step_takes_the_editor_reply_as_a_value() {
    let mut model = working_model();
    let out = step(&mut model, Message::NewCard, Some(Ok("T\n=\n\nb".to_string())));
    assert_eq!(out, Ok(Action::Nothing));
    assert_eq!(ids(&model, 0), vec![4, 3, 2, 1]);
    let out = step(&mut model, Message::NewCard, Some(Ok("nothing".to_string())));
    assert_eq!(out, Err(Error::CardTextMalformed));
    let out = step(&mut model, Message::Quit, None);
    assert_eq!(out, Ok(Action::Nothing));
    assert_eq!(model.running_state, RunningState::Done);
}

#[test]
fn errors_are_shown_for_ten_seconds() {
    let mut model = working_model();
    let out = update(&mut model, Message::SetError(Some("oops".to_string()))).unwrap();
    assert_eq!(out, Action::ClearErrorAfter(10));
    assert_eq!(model.error, Some("oops".to_string()));

    let out = update(&mut model, Message::SetError(None)).unwrap();
    assert_eq!(out, Action::Nothing);
    assert_eq!(model.error, None);
    // clearing twice is harmless
    update(&mut model, Message::SetError(None)).unwrap();
    assert_eq!(model.error, None);

    // an error can be shown in every mode
    for mode in [
        Mode::ViewingBoard,
        Mode::ViewingCardDetail,
        Mode::MovingCard,
        Mode::ViewingBoards,
        Mode::ConfirmCardDeletion,
    ] {
        model.mode = mode;
        assert!(mode.accepts(&Message::SetError(None)));
        assert!(mode.accepts(&Message::Quit));
        update(&mut model, Message::SetError(Some("e".to_string()))).unwrap();
        assert_eq!(model.mode, mode);
    }
}

#[test]
fn quit_ends_the_session_in_every_mode() {
    for mode in [
        Mode::ViewingBoard,
        Mode::ViewingCardDetail,
        Mode::MovingCard,
        Mode::ViewingBoards,
        Mode::ConfirmCardDeletion,
    ] {
        let mut model = working_model();
        model.mode = mode;
        update(&mut model, Message::Quit).unwrap();
        assert_eq!(model.running_state, RunningState::Done);
    }
}

#[test]
fn keys_give_messages_that_the_mode_accepts() {
    let keys = [
        Key::Char('h'), Key::Char('j'), Key::Char('k'), Key::Char('l'), Key::Char('q'),
        Key::Char('m'), Key::Char('n'), Key::Char('e'), Key::Char('d'), Key::Char('b'),
        Key::Char('x'), Key::Left, Key::Right, Key::Up, Key::Down, Key::Enter, Key::Esc,
        Key::Other,
    ];
    let mut model = working_model();
    for mode in [
        Mode::ViewingBoard,
        Mode::ViewingCardDetail,
        Mode::MovingCard,
        Mode::ViewingBoards,
        Mode::ConfirmCardDeletion,
    ] {
        model.mode = mode;
        for key in keys {
            if let Some(msg) = handle_event(Event::KeyEvent(key), &model) {
                assert!(mode.accepts(&msg), "{:?} {:?}", mode, key);
            }
        }
        assert_eq!(
            handle_event(Event::InternalEvent(InternalEvent::ClearError), &model),
            Some(Message::SetError(None))
        );
    }
    model.mode = Mode::ViewingBoard;
    assert_eq!(handle_event(Event::KeyEvent(Key::Char('h')), &model), Some(Message::NavigateLeft));
    assert_eq!(handle_event(Event::KeyEvent(Key::Enter), &model), Some(Message::ViewCardDetailMode));
    assert_eq!(handle_event(Event::KeyEvent(Key::Char('x')), &model), None);
    model.mode = Mode::MovingCard;
    assert_eq!(handle_event(Event::KeyEvent(Key::Left), &model), Some(Message::MoveCardLeft));
    assert_eq!(handle_event(Event::KeyEvent(Key::Esc), &model), Some(Message::ViewBoardMode));
    model.mode = Mode::ViewingCardDetail;
    assert_eq!(handle_event(Event::KeyEvent(Key::Char('q')), &model), Some(Message::Quit));
    model.mode = Mode::ConfirmCardDeletion;
    assert_eq!(handle_event(Event::KeyEvent(Key::Enter), &model), Some(Message::ConfirmChoice));
    assert_eq!(handle_event(Event::KeyEvent(Key::Char('q')), &model), None);
    model.mode = Mode::ViewingBoards;
    assert_eq!(handle_event(Event::KeyEvent(Key::Char('n')), &model), Some(Message::NewBoard));
    assert_eq!(handle_event(Event::KeyEvent(Key::Enter), &model), Some(Message::ViewBoardMode));
}

#[test]
fn modes_do_not_accept_foreign_messages() {
    assert!(!Mode::ViewingBoard.accepts(&Message::MoveCardLeft));
    assert!(!Mode::ViewingBoard.accepts(&Message::ConfirmChoice));
    assert!(!Mode::ViewingBoard.accepts(&Message::NewBoard));
    assert!(!Mode::ViewingBoard.accepts(&Message::ViewBoardMode));
    assert!(!Mode::ViewingCardDetail.accepts(&Message::NavigateLeft));
    assert!(!Mode::MovingCard.accepts(&Message::NewCard));
    assert!(!Mode::ViewingBoards.accepts(&Message::NewCard));
    assert!(!Mode::ConfirmCardDeletion.accepts(&Message::DeleteCard));
    assert_eq!(Mode::MovingCard.label(), "MOVING CARD");
    assert_eq!(Mode::ViewingBoards.label(), "VIEWING BOARDS");
}

#[test]
fn picker_creates_and_selects_a_board() {
    let mut model = working_model();
    update(&mut model, Message::ViewBoardsMode).unwrap();
    assert_eq!(model.mode, Mode::ViewingBoards);
    assert!(model.board.is_none());
    assert_eq!(model.board_metas.len(), 1);
    assert_eq!((model.selected.board_index, model.selected.board_id), (Some(0), 2));

    update_with_run_editor_fn(&mut model, Message::NewBoard, text("Home\n====\n\n- Now\n- Later"))
        .unwrap();
    assert_eq!(model.board_metas.len(), 2);
    assert_eq!(model.board_metas[0].name, "Home");
    assert_eq!(model.board_metas[0].columns, vec!["Now".to_string(), "Later".to_string()]);
    assert_eq!((model.selected.board_index, model.selected.board_id), (Some(0), 3));

    // entering loads the board and selects the first column
    update(&mut model, Message::ViewBoardMode).unwrap();
    assert_eq!(model.mode, Mode::ViewingBoard);
    assert!(model.board_metas.is_empty());
    let board = model.board.as_ref().unwrap();
    assert_eq!((board.id, board.name.as_str()), (3, "Home"));
    assert_eq!((model.selected.column_index, model.selected.card_index), (0, None));

    // the board viewed last heads the list
    update(&mut model, Message::ViewBoardsMode).unwrap();
    update(&mut model, Message::NavigateDown).unwrap();
    assert_eq!((model.selected.board_index, model.selected.board_id), (Some(1), 2));
    update(&mut model, Message::ViewBoardMode).unwrap();
    assert_eq!(model.board.as_ref().unwrap().name, "Work");
    assert_eq!((model.selected.column_index, model.selected.card_index), (0, Some(0)));
    update(&mut model, Message::ViewBoardsMode).unwrap();
    assert_eq!(model.board_metas[0].name, "Work");
}

#[test]
fn picker_refuses_what_the_store_refuses() {
    let mut model = working_model();
    update(&mut model, Message::ViewBoardsMode).unwrap();

    let err = update_with_run_editor_fn(&mut model, Message::NewBoard, text("Work\n=\n\n- a"))
        .unwrap_err();
    assert_eq!(err, Error::DuplicateBoardName);
    let err = update_with_run_editor_fn(&mut model, Message::NewBoard, text("New\n=\n\n- a\n- a"))
        .unwrap_err();
    assert_eq!(err, Error::DuplicateColumnName);
    let err =
        update_with_run_editor_fn(&mut model, Message::NewBoard, text("New\n=\n\n")).unwrap_err();
    assert_eq!(err, Error::BoardColumnsMissing);
    assert_eq!(model.board_metas.len(), 1);
    assert_eq!(model.repo.boards().len(), 2);
    assert_eq!(model.mode, Mode::ViewingBoards);

    let err = model.create_board("Empty", &[]).unwrap_err();
    assert_eq!(err, Error::NoColumns);
    assert_eq!(err.kind(), ErrorKind::ValidationFailure);
    assert_eq!(model.board_metas.len(), 1);
}

#[test]
fn edited_board_must_keep_its_columns() {
    let mut model = working_model();
    update(&mut model, Message::ViewBoardsMode).unwrap();
    assert_eq!(
        editor_template(&model, &Message::EditBoard).unwrap(),
        "Work\n==========\n\n- Todo\n- Doing\n- Done\n"
    );

    let err = update_with_run_editor_fn(
        &mut model,
        Message::EditBoard,
        text("Work\n=\n\n- Todo\n- Done\n"),
    )
    .unwrap_err();
    assert_eq!(err, Error::ColumnsRemoved);
    assert_eq!(err.kind(), ErrorKind::ValidationFailure);
    assert_eq!(err.message(), "Could not update board: columns do not match");
    assert_eq!(model.mode, Mode::ViewingBoards);
    assert_eq!(
        model.board_metas[0].columns,
        vec!["Todo".to_string(), "Doing".to_string(), "Done".to_string()]
    );

    update_with_run_editor_fn(
        &mut model,
        Message::EditBoard,
        text("Job\n=\n\n- Done\n- Todo\n- Review\n- Doing\n"),
    )
    .unwrap();
    assert_eq!(model.board_metas[0].name, "Job");
    assert_eq!((model.selected.board_index, model.selected.board_id), (Some(0), 2));
    assert_eq!(
        model.board_metas[0].columns,
        vec!["Done".to_string(), "Todo".to_string(), "Review".to_string(), "Doing".to_string()]
    );
    assert_eq!(model.selected.board_index, Some(0));
    // the cards are where they were
    assert_eq!(model.repo.cards_for_column(2, "Todo").len(), 3);
}

#[test]
fn picker_without_selection_ignores_enter_and_edit() {
    let mut model = Model::new(Repo::new());
    update(&mut model, Message::ViewBoardsMode).unwrap();
    assert!(model.board_metas.is_empty());
    assert_eq!(model.selected.board_index, None);
    update(&mut model, Message::ViewBoardMode).unwrap();
    assert_eq!(model.mode, Mode::ViewingBoards);
    update(&mut model, Message::EditBoard).unwrap();
    update(&mut model, Message::NavigateDown).unwrap();
    update(&mut model, Message::NavigateUp).unwrap();
    assert_eq!(model.selected.board_index, None);
    assert_eq!(model.update_selected_board("x", &["a"]).unwrap_err(), Error::EmptySelection);
    assert_eq!(Error::EmptySelection.kind(), ErrorKind::EmptySelection);
}

#[test]
fn create_column_needs_a_loaded_board() {
    let mut model = Model::new(Repo::empty());
    let err = model.create_column("Todo").unwrap_err();
    assert_eq!(err, Error::EmptySelection);
    assert_eq!(err.message(), "No board selected");

    let mut model = Model::new(Repo::new());
    model.create_column("Todo").unwrap();
    model.create_column("Todo").unwrap();
    model.create_column("Doing").unwrap();
    let names: Vec<&str> =
        model.board.as_ref().unwrap().columns.iter().map(|c| c.name.as_str()).collect();
    assert_eq!(names, vec!["Todo", "Doing"]);
    assert_eq!(model.repo.columns().len(), 2);
}

#[test]
fn added_cards_are_kept_newest_first() {
    let mut model = Model::new(Repo::new());
    model.board = Some(Board {
        id: 1,
        name: "Board".to_string(),
        columns: vec![Column { name: "Todo".to_string(), cards: vec![] }],
    });
    for id in [2, 5, 3] {
        model.add_card_to_selected_column(Card {
            id,
            number: id,
            title: String::new(),
            body: String::new(),
            inserted_at: 0,
            updated_at: 0,
        });
    }
    assert_eq!(ids(&model, 0), vec![5, 3, 2]);
    assert_eq!(model.selected_card_id(), None);
    model.selected.card_index = Some(1);
    assert_eq!(model.selected_card_id(), Some(3));
    assert_eq!(model.selected_column().unwrap().name, "Todo");
    model.selected.column_index = 4;
    assert!(model.selected_column().is_none());
    assert!(model.selected_card().is_none());
}

/// Every column in memory holds the cards that the store keeps in it; they
/// stand newest first unless a card is being moved.
fn assert_agreement(model: &Model) {
    let Some(board) = &model.board else {
        return;
    };
    assert_eq!(board.id, model.selected.board_id);
    let stored = model.repo.get_cards_for_board(board.id);
    assert_eq!(stored.len(), board.columns.len());
    for (shown, kept) in board.columns.iter().zip(stored.iter()) {
        assert_eq!(shown.name, kept.name);
        let mut shown_ids: Vec<u64> = shown.cards.iter().map(|c| c.id).collect();
        let kept_ids: Vec<u64> = kept.cards.iter().map(|c| c.id).collect();
        if model.mode == Mode::MovingCard {
            shown_ids.sort_by(|a, b| b.cmp(a));
        }
        assert_eq!(shown_ids, kept_ids);
    }
    // the selection points at what exists
    if board.columns.is_empty() {
        assert_eq!(model.selected.card_index, None);
    } else {
        let column = &board.columns[model.selected.column_index];
        match model.selected.card_index {
            None => assert!(column.cards.is_empty()),
            Some(i) => assert!(i < column.cards.len()),
        }
    }
}

#[test]
fn memory_and_store_agree_after_every_step() {
    let mut model = working_model();
    assert_agreement(&model);
    let script = [
        Message::NavigateDown,
        Message::MoveCardMode,
        Message::MoveCardRight,
        Message::MoveCardRight,
        Message::MoveCardRight,
        Message::MoveCardLeft,
        Message::ViewBoardMode,
        Message::NewCard,
        Message::NavigateRight,
        Message::EditCard,
        Message::NavigateLeft,
        Message::NavigateDown,
        Message::MoveCardMode,
        Message::MoveCardRight,
        Message::ViewBoardMode,
        Message::DeleteCard,
        Message::NavigateRight,
        Message::ConfirmChoice,
        Message::NewCard,
        Message::NewCard,
        Message::ViewCardDetailMode,
        Message::ViewBoardMode,
        Message::NavigateDown,
        Message::DeleteCard,
        Message::ConfirmChoice,
        Message::ViewBoardsMode,
        Message::NewBoard,
        Message::ViewBoardMode,
        Message::NewCard,
        Message::ViewBoardsMode,
        Message::NavigateDown,
        Message::EditBoard,
        Message::ViewBoardMode,
        Message::NavigateRight,
        Message::NavigateRight,
        Message::NavigateRight,
        Message::NavigateLeft,
        Message::Quit,
    ];
    for msg in script {
        assert!(model.mode.accepts(&msg), "{:?} in {:?}", msg, model.mode);
        let out = update_with_run_editor_fn(&mut model, msg, |template: &str| {
            if template.contains("- ") {
                Ok(format!("{}- Extra\n", template.replace("Board Name", "Other")))
            } else {
                Ok(template.replace("Title", "Fresh"))
            }
        });
        assert!(out.is_ok());
        assert_agreement(&model);
    }
    assert_eq!(model.running_state, RunningState::Done);
    assert_eq!(model.repo.boards().len(), 3);
}

#[test]
fn edited_board_stays_selected_at_the_head_of_the_list() {
    let mut model = working_model();
    update(&mut model, Message::ViewBoardsMode).unwrap();
    update_with_run_editor_fn(&mut model, Message::NewBoard, text("Home\n====\n\n- Now\n")).unwrap();
    update_with_run_editor_fn(&mut model, Message::NewBoard, text("Garden\n====\n\n- Now\n")).unwrap();
    let listed: Vec<&str> = model.board_metas.iter().map(|m| m.name.as_str()).collect();
    assert_eq!(listed, vec!["Garden", "Home", "Work"]);

    update(&mut model, Message::NavigateDown).unwrap();
    update(&mut model, Message::NavigateDown).unwrap();
    assert_eq!((model.selected.board_index, model.selected.board_id), (Some(2), 2));

    // a name with a dash and a space is a name, not a column
    update_with_run_editor_fn(
        &mut model,
        Message::EditBoard,
        text("Work - now\n=\n\n- Todo\n- Doing\n- Done\n"),
    )
    .unwrap();
    let listed: Vec<&str> = model.board_metas.iter().map(|m| m.name.as_str()).collect();
    assert_eq!(listed, vec!["Work - now", "Garden", "Home"]);
    assert_eq!((model.selected.board_index, model.selected.board_id), (Some(0), 2));
    assert_eq!(
        model.board_metas[0].columns,
        vec!["Todo".to_string(), "Doing".to_string(), "Done".to_string()]
    );

    // editing it again without a change adds no column
    let template = editor_template(&model, &Message::EditBoard).unwrap();
    assert_eq!(template, "Work - now\n==========\n\n- Todo\n- Doing\n- Done\n");
    update_with_run_editor_fn(&mut model, Message::EditBoard, |t: &str| Ok(t.to_string())).unwrap();
    assert_eq!(model.board_metas[0].name, "Work - now");
    assert_eq!(model.board_metas[0].columns.len(), 3);
    assert_eq!(model.repo.columns().len(), 5);
}
