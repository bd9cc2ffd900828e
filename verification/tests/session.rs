use kk::{
    update, update_with_run_editor_fn, Board, Card, Column, ConfirmationState, Error, Message,
    Mode, Model, Repo, RunningState, SelectedState,
};

fn fresh_model() -> Model {
    Model::new(Repo::new())
}

fn card(id: u64, title: &str, body: &str) -> Card {
    Card {
        id,
        number: id,
        title: title.to_string(),
        body: body.to_string(),
        inserted_at: 0,
        updated_at: 0,
    }
}

/// Cards are compared by identity, title and body; their stamps are left out.
fn assert_cards(cards: &[Card], expected: &[(u64, &str, &str)]) {
    assert_eq!(cards.len(), expected.len());
    for (card, (id, title, body)) in cards.iter().zip(expected.iter()) {
        assert_eq!(card.id, *id);
        assert_eq!(card.title, *title);
        assert_eq!(card.body, *body);
    }
}

#[test]
fn with_zero_columns() {
    let mut model = fresh_model();

    model.create_board("Board1", &["Todo"]).unwrap();

    update(&mut model, Message::ViewBoardsMode).unwrap();

    let update_result = update_with_run_editor_fn(&mut model, Message::NewBoard, |_template: &str| {
        Ok("Some Board Name\n==========\n\n".to_string())
    });

    assert!(update_result.is_err());

    assert_eq!(model.running_state, RunningState::Running);
}

#[test]
fn with_at_least_one_column() {
    let mut model = fresh_model();

    model.create_board("Board1", &["Todo"]).unwrap();

    update(&mut model, Message::ViewBoardsMode).unwrap();

    let update_result = update_with_run_editor_fn(&mut model, Message::NewBoard, |_template: &str| {
        Ok("Some Board Name\n==========\n\n- Todo".to_string())
    });

    assert!(update_result.is_ok());

    assert_eq!(model.running_state, RunningState::Running);
}

#[test]
fn with_bad_input() {
    let mut model = fresh_model();

    model.create_column("Todo").unwrap();

    let update_result = update_with_run_editor_fn(&mut model, Message::NewCard, |_template: &str| {
        Ok("bad input".to_string())
    });

    assert!(update_result.is_err());

    assert_eq!(model.running_state, RunningState::Running);
}

#[test]
fn with_valid_input() {
    let mut model = fresh_model();

    model.create_column("Todo").unwrap();

    assert_eq!(model.selected.column_index, 0);
    assert_eq!(model.selected.card_index, None);

    let update_result = update_with_run_editor_fn(&mut model, Message::NewCard, |_template: &str| {
        Ok("Valid Title\n==========\n\nValid card body".to_string())
    });

    assert!(update_result.is_ok());

    assert_cards(
        &model.board.as_ref().unwrap().columns[0].cards,
        &[(1, "Valid Title", "Valid card body")],
    );

    assert_eq!(model.selected.column_index, 0);
    assert_eq!(model.selected.card_index, Some(0));

    assert_cards(
        &model.repo.cards_for_column(1, "Todo"),
        &[(1, "Valid Title", "Valid card body")],
    );

    assert_eq!(model.running_state, RunningState::Running);
}

#[test]
fn main_with_bad_input() {
    let mut model = fresh_model();

    model.create_column("Todo").unwrap();

    let update_result = update_with_run_editor_fn(&mut model, Message::NewCard, |_template: &str| {
        Ok("Valid Title\n==========\n\nValid card body".to_string())
    });

    assert!(update_result.is_ok());

    model.selected.column_index = 0;
    model.selected.card_index = Some(0);

    assert_eq!(model.selected.column_index, 0);
    assert_eq!(model.selected.card_index, Some(0));

    let update_result = update_with_run_editor_fn(&mut model, Message::EditCard, |_template: &str| {
        Ok("Bad input".to_string())
    });

    assert!(update_result.is_err());

    assert_cards(
        &model.board.as_ref().unwrap().columns[0].cards,
        &[(1, "Valid Title", "Valid card body")],
    );

    assert_eq!(model.selected.column_index, 0);
    assert_eq!(model.selected.card_index, Some(0));

    assert_cards(
        &model.repo.cards_for_column(1, "Todo"),
        &[(1, "Valid Title", "Valid card body")],
    );

    assert_eq!(model.running_state, RunningState::Running);
}

#[test]
fn main_with_valid_input() {
    let mut model = fresh_model();

    model.create_column("Todo").unwrap();

    let update_result = update_with_run_editor_fn(&mut model, Message::NewCard, |_template: &str| {
        Ok("Valid Title\n==========\n\nValid card body".to_string())
    });

    assert!(update_result.is_ok());

    model.selected.column_index = 0;
    model.selected.card_index = Some(0);

    assert_eq!(model.selected.column_index, 0);
    assert_eq!(model.selected.card_index, Some(0));

    let update_result = update_with_run_editor_fn(&mut model, Message::EditCard, |_template: &str| {
        Ok("Valid Title\n==========\n\nValid card body".to_string())
    });

    assert!(update_result.is_ok());

    assert_cards(
        &model.board.as_ref().unwrap().columns[0].cards,
        &[(1, "Valid Title", "Valid card body")],
    );

    assert_eq!(model.selected.column_index, 0);
    assert_eq!(model.selected.card_index, Some(0));

    assert_cards(
        &model.repo.cards_for_column(1, "Todo"),
        &[(1, "Valid Title", "Valid card body")],
    );

    assert_eq!(model.running_state, RunningState::Running);
}

#[test]
fn update_quit() {
    let mut model = fresh_model();

    update(&mut model, Message::Quit).unwrap();

    assert_eq!(model.running_state, RunningState::Done);
}

fn two_columns(todo: Vec<Card>, doing: Vec<Card>) -> Board {
    Board {
        id: 1,
        name: "Board".to_string(),
        columns: vec![
            Column { name: "Todo".to_string(), cards: todo },
            Column { name: "Doing".to_string(), cards: doing },
        ],
    }
}

fn one_column(cards: Vec<Card>) -> Board {
    Board {
        id: 1,
        name: "Board".to_string(),
        columns: vec![Column { name: "Todo".to_string(), cards }],
    }
}

#[test]
fn when_left() {
    let mut model = fresh_model();

    update(&mut model, Message::NavigateLeft).unwrap();

    assert_eq!(model.running_state, RunningState::Running);
    assert_eq!(
        model.selected,
        SelectedState { board_id: 1, board_index: None, column_index: 0, card_index: None }
    );
}

#[test]
fn when_right_with_card() {
    let mut model = fresh_model();

    model.board = Some(two_columns(
        vec![card(1, "great card", "great body")],
        vec![card(2, "title 2", "body 2")],
    ));

    model.selected.column_index = 1;
    model.selected.card_index = Some(0);

    update(&mut model, Message::NavigateLeft).unwrap();

    assert_eq!(model.running_state, RunningState::Running);
    assert_eq!(
        model.selected,
        SelectedState { board_id: 1, board_index: None, column_index: 0, card_index: Some(0) }
    );
}

#[test]
fn when_right_without_card() {
    let mut model = fresh_model();

    model.board = Some(two_columns(vec![], vec![card(2, "title 2", "body 2")]));

    model.selected.column_index = 1;
    model.selected.card_index = Some(0);

    update(&mut model, Message::NavigateLeft).unwrap();

    assert_eq!(model.running_state, RunningState::Running);
    assert_eq!(
        model.selected,
        SelectedState { board_id: 1, board_index: None, column_index: 0, card_index: None }
    );
}

#[test]
fn when_right() {
    let mut model = fresh_model();

    update(&mut model, Message::NavigateRight).unwrap();

    assert_eq!(model.running_state, RunningState::Running);
    assert_eq!(
        model.selected,
        SelectedState { board_id: 1, board_index: None, column_index: 0, card_index: None }
    );
}

#[test]
fn when_left_with_card() {
    let mut model = fresh_model();

    model.board = Some(two_columns(
        vec![card(1, "great card", "great body")],
        vec![card(2, "title 2", "body 2")],
    ));

    model.selected.column_index = 0;
    model.selected.card_index = Some(0);

    update(&mut model, Message::NavigateRight).unwrap();

    assert_eq!(model.running_state, RunningState::Running);
    assert_eq!(
        model.selected,
        SelectedState { board_id: 1, board_index: None, column_index: 1, card_index: Some(0) }
    );
}

#[test]
fn when_left_without_card() {
    let mut model = fresh_model();

    model.board = Some(two_columns(vec![card(2, "title 2", "body 2")], vec![]));

    model.selected.column_index = 1;
    model.selected.card_index = Some(0);

    update(&mut model, Message::NavigateRight).unwrap();

    assert_eq!(model.running_state, RunningState::Running);
    assert_eq!(
        model.selected,
        SelectedState { board_id: 1, board_index: None, column_index: 1, card_index: Some(0) }
    );
}

#[test]
fn when_length_is_one() {
    let mut model = fresh_model();

    model.board = Some(one_column(vec![card(2, "title 2", "body 2")]));

    model.selected.column_index = 0;
    model.selected.card_index = Some(0);

    update(&mut model, Message::NavigateDown).unwrap();

    assert_eq!(model.running_state, RunningState::Running);
    assert_eq!(
        model.selected,
        SelectedState { board_id: 1, board_index: None, column_index: 0, card_index: Some(0) }
    );
}

#[test]
fn when_length_is_greater_than_one() {
    let mut model = fresh_model();

    model.board =
        Some(one_column(vec![card(1, "title 1", "body 1"), card(2, "title 2", "body 2")]));

    model.selected.column_index = 0;
    model.selected.card_index = Some(0);

    update(&mut model, Message::NavigateDown).unwrap();

    assert_eq!(model.running_state, RunningState::Running);
    assert_eq!(
        model.selected,
        SelectedState { board_id: 1, board_index: None, column_index: 0, card_index: Some(1) }
    );
}

#[test]
fn main_when_length_is_one() {
    let mut model = fresh_model();

    model.board = Some(one_column(vec![card(2, "title 2", "body 2")]));

    model.selected.column_index = 0;
    model.selected.card_index = Some(0);

    update(&mut model, Message::NavigateUp).unwrap();

    assert_eq!(model.running_state, RunningState::Running);
    assert_eq!(
        model.selected,
        SelectedState { board_id: 1, board_index: None, column_index: 0, card_index: Some(0) }
    );
}

#[test]
fn main_when_length_is_greater_than_one() {
    let mut model = fresh_model();

    model.board =
        Some(one_column(vec![card(1, "title 1", "body 1"), card(2, "title 2", "body 2")]));

    model.selected.column_index = 0;
    model.selected.card_index = Some(1);

    update(&mut model, Message::NavigateUp).unwrap();

    assert_eq!(model.running_state, RunningState::Running);
    assert_eq!(
        model.selected,
        SelectedState { board_id: 1, board_index: None, column_index: 0, card_index: Some(0) }
    );
}

#[test]
fn switches() {
    let mut model = fresh_model();

    // moving needs a card to move
    model.create_column("Todo").unwrap();
    update_with_run_editor_fn(&mut model, Message::NewCard, |_template: &str| {
        Ok("Title\n==========\n\nBody".to_string())
    })
    .unwrap();

    assert_eq!(model.mode, Mode::ViewingBoard);

    update(&mut model, Message::MoveCardMode).unwrap();

    assert_eq!(model.running_state, RunningState::Running);
    assert_eq!(model.mode, Mode::MovingCard);
}

#[test]
fn does_not_switch_to_moving_without_a_card() {
    let mut model = fresh_model();

    assert_eq!(model.mode, Mode::ViewingBoard);

    update(&mut model, Message::MoveCardMode).unwrap();

    assert_eq!(model.running_state, RunningState::Running);
    assert_eq!(model.mode, Mode::ViewingBoard);
}

#[test]
fn switches_when_column_is_not_empty() {
    let mut model = fresh_model();

    model.create_column("Todo").unwrap();

    model.add_card_to_selected_column(card(1, "Title", "Body"));

    assert_eq!(model.mode, Mode::ViewingBoard);

    update(&mut model, Message::ViewCardDetailMode).unwrap();

    assert_eq!(model.running_state, RunningState::Running);
    assert_eq!(model.mode, Mode::ViewingCardDetail);
}

#[test]
fn does_not_switch_when_column_is_empty() {
    let mut model = fresh_model();

    assert_eq!(model.mode, Mode::ViewingBoard);

    update(&mut model, Message::ViewCardDetailMode).unwrap();

    assert_eq!(model.running_state, RunningState::Running);
    assert_eq!(model.mode, Mode::ViewingBoard);
}

#[test]
fn main_switches() {
    let mut model = fresh_model();

    model.mode = Mode::ViewingCardDetail;

    update(&mut model, Message::ViewBoardMode).unwrap();

    assert_eq!(model.running_state, RunningState::Running);
    assert_eq!(model.mode, Mode::ViewingBoard);

    model.mode = Mode::MovingCard;

    update(&mut model, Message::ViewBoardMode).unwrap();

    assert_eq!(model.running_state, RunningState::Running);
    assert_eq!(model.mode, Mode::ViewingBoard);
}

#[test]
fn navigate_down_with_one_board() {
    let mut model = fresh_model();

    model.create_board("Board1", &["Todo"]).unwrap();

    update(&mut model, Message::ViewBoardsMode).unwrap();

    assert_eq!(model.mode, Mode::ViewingBoards);

    assert_eq!(model.selected.board_index, Some(0));

    assert!(model.board.is_none());

    update(&mut model, Message::NavigateDown).unwrap();

    assert_eq!(model.selected.board_index, Some(0));
}

#[test]
fn navigate_down_with_two_boards() {
    let mut model = fresh_model();

    model.create_board("Board1", &["Todo"]).unwrap();
    model.create_board("Board2", &["Todo"]).unwrap();

    update(&mut model, Message::ViewBoardsMode).unwrap();

    assert_eq!(model.mode, Mode::ViewingBoards);

    assert_eq!(model.selected.board_index, Some(0));

    assert!(model.board.is_none());

    update(&mut model, Message::NavigateDown).unwrap();

    assert_eq!(model.selected.board_index, Some(1));
}

#[test]
fn navigate_up_with_one_board() {
    let mut model = fresh_model();

    model.create_board("Board1", &["Todo"]).unwrap();

    update(&mut model, Message::ViewBoardsMode).unwrap();

    assert_eq!(model.mode, Mode::ViewingBoards);

    assert_eq!(model.selected.board_index, Some(0));

    assert!(model.board.is_none());

    update(&mut model, Message::NavigateUp).unwrap();

    assert_eq!(model.selected.board_index, Some(0));
}

#[test]
fn navigate_up_with_two_boards() {
    let mut model = fresh_model();

    model.create_board("Board1", &["Todo"]).unwrap();
    model.create_board("Board2", &["Todo"]).unwrap();

    update(&mut model, Message::ViewBoardsMode).unwrap();

    assert_eq!(model.mode, Mode::ViewingBoards);

    assert_eq!(model.selected.board_index, Some(0));

    assert!(model.board.is_none());

    update(&mut model, Message::NavigateDown).unwrap();
    assert_eq!(model.selected.board_index, Some(1));
    update(&mut model, Message::NavigateUp).unwrap();
    assert_eq!(model.selected.board_index, Some(0));
}

#[test]
fn delete_card() {
    let mut model = fresh_model();

    model.create_column("Todo").unwrap();

    let update_result = update_with_run_editor_fn(&mut model, Message::NewCard, |_template: &str| {
        Ok("Valid Title\n==========\n\nValid card body".to_string())
    });

    assert!(update_result.is_ok());

    let card = model.selected_card().unwrap();

    assert_eq!(card.id, 1);
    assert_eq!(card.title, "Valid Title");
    assert_eq!(card.body, "Valid card body");

    let column = model.selected_column().unwrap();
    assert!(!column.cards.is_empty());

    update(&mut model, Message::DeleteCard).unwrap();
    assert_eq!(model.confirmation_state, ConfirmationState::No);
    assert_eq!(model.mode, Mode::ConfirmCardDeletion);

    let column = model.selected_column().unwrap();
    assert!(!column.cards.is_empty());

    update(&mut model, Message::NavigateLeft).unwrap();
    assert_eq!(model.confirmation_state, ConfirmationState::Yes);

    update(&mut model, Message::ConfirmChoice).unwrap();
    let column = model.selected_column().unwrap();
    assert!(column.cards.is_empty());

    // the card is gone from the store too, and nothing is selected
    assert!(model.repo.cards_for_column(1, "Todo").is_empty());
    assert_eq!(model.selected.card_index, None);
    assert_eq!(model.mode, Mode::ViewingBoard);
    assert_eq!(model.confirmation_state, ConfirmationState::No);
}

#[test]
fn editor_failure_reaches_the_caller_unchanged() {
    let mut model = fresh_model();
    model.create_column("Todo").unwrap();

    let out = update_with_run_editor_fn(&mut model, Message::NewCard, |_template: &str| {
        Err(Error::Editor("editor crashed".to_string()))
    });

    assert_eq!(out, Err(Error::Editor("editor crashed".to_string())));
    assert!(model.repo.cards_for_column(1, "Todo").is_empty());
}
