use kk::screen::{
    board_line, card_body_lines, card_item, card_line, card_stamps, confirmation_labels, decimal,
    delete_title, flatten, key_hints, mode_line, pad_right, stamp,
};
use rusqlite::Connection;
use kk::{BoardMeta, Card, Column, ConfirmationState, Mode};

fn card(id: u64, title: &str, body: &str) -> Card {
    Card {
        id,
        number: id,
        title: title.to_string(),
        body: body.to_string(),
        inserted_at: 7,
        updated_at: 12,
    }
}

#[test]
fn numbers_are_written_in_decimal() {
    assert_eq!(decimal(0), "0");
    assert_eq!(decimal(7), "7");
    assert_eq!(decimal(10), "10");
    assert_eq!(decimal(1234567890), "1234567890");
    assert_eq!(decimal(u64::MAX), "18446744073709551615");
    for n in [1u64, 9, 11, 99, 100, 101, 4096, 999_999] {
        assert_eq!(decimal(n), n.to_string());
    }
}

#[test]
fn padding_fills_up_to_the_width() {
    assert_eq!(pad_right("ab", 5), "ab   ");
    assert_eq!(pad_right("abcde", 5), "abcde");
    assert_eq!(pad_right("abcdef", 5), "abcdef");
    assert_eq!(pad_right("", 0), "");
    assert_eq!(pad_right("äö", 4), "äö  ");
    assert_eq!(pad_right("ab", 5), format!("{:<5}", "ab"));
}

#[test]
fn line_breaks_become_spaces() {
    assert_eq!(flatten("a\nb\n\nc"), "a b  c");
    assert_eq!(flatten("\n"), " ");
    assert_eq!(flatten(""), "");
    assert_eq!(flatten("no break"), "no break");
    assert_eq!(flatten("é\nü\n"), "é ü ");
}

#[test]
fn card_line_shows_identity_and_title() {
    assert_eq!(card_line(&card(12, "Write tests", "")), "12 Write tests");
    assert_eq!(card_line(&card(3, "", "")), "3 ");
}

#[test]
fn card_item_is_broken_to_fit_its_list() {
    let c = card(1, "Memory safety without garbage collection.", "");
    // 17 columns with the frame leave 15 for the text
    assert_eq!(card_item(&c, 17), "1 Memory safety\nwithout garbage\ncollection.");
    assert_eq!(card_item(&c, 80), "1 Memory safety without garbage collection.");
    assert_eq!(card_item(&card(1, "short", ""), 80), "1 short");
    // what is left of a frame narrower than its borders is no width at all
    assert_eq!(card_item(&card(1, "ab", ""), 1), card_item(&card(1, "ab", ""), 2));
    assert!(card_item(&card(1, "ab cd", ""), 3).contains('\n'));
}

#[test]
fn card_body_is_broken_into_lines() {
    let c = card(1, "t", "Memory safety without garbage collection.");
    assert_eq!(
        card_body_lines(&c, 15),
        vec!["Memory safety".to_string(), "without garbage".to_string(), "collection.".to_string()]
    );
    assert_eq!(card_body_lines(&c, 80), vec!["Memory safety without garbage collection.".to_string()]);
    let two = card(1, "t", "first\nsecond");
    assert_eq!(card_body_lines(&two, 80), vec!["first".to_string(), "second".to_string()]);
}

#[test]
fn card_stamps_and_dialog_title() {
    let c = card(1, "Write tests", "");
    assert_eq!(
        card_stamps(&c),
        "created 1970-01-01 00:00:07, updated 1970-01-01 00:00:12"
    );
    assert_eq!(delete_title(&c), "Delete Write tests");
}

#[test]
fn dialog_labels_show_the_highlighted_answer() {
    assert_eq!(confirmation_labels(ConfirmationState::Yes), ("[ Delete ]", "Cancel"));
    assert_eq!(confirmation_labels(ConfirmationState::No), ("Delete", "[ Cancel ]"));
}

#[test]
fn board_line_has_four_columns() {
    let meta = BoardMeta {
        id: 1,
        name: "Work".to_string(),
        columns: vec![],
        inserted_at: 3,
        updated_at: 40,
        viewed_at: 500,
    };
    let line = board_line(&meta);
    assert_eq!(
        line,
        format!(
            "{:<30}{:<30}{:<30}{:<30}",
            "Work", "1970-01-01 00:00:40", "1970-01-01 00:08:20", "1970-01-01 00:00:03"
        )
    );
    assert_eq!(line.len(), 120);
}

#[test]
fn mode_line_shows_the_error_or_the_keys() {
    assert_eq!(
        mode_line(&Some("bad\ninput".to_string()), Mode::ViewingBoard),
        " - Error: bad input"
    );
    assert_eq!(
        mode_line(&None, Mode::ViewingCardDetail),
        "[enter/esc] - close detail view │ [q] - quit"
    );
    assert_eq!(mode_line(&None, Mode::ConfirmCardDeletion), key_hints(Mode::ConfirmCardDeletion));
    assert!(key_hints(Mode::ViewingBoard).starts_with("[h,j,k,l/arrows] - move │ [q] - quit"));
    assert!(key_hints(Mode::ViewingBoards).ends_with("[q] - quit"));
    assert!(key_hints(Mode::MovingCard).contains("[l/right] - move card right"));
}

#[test]
fn column_label_is_its_name() {
    let column = Column { name: "Todo".to_string(), cards: vec![] };
    assert_eq!(column.label(), "Todo");
}

#[test]
fn stamps_are_written_as_date_and_time() {
    assert_eq!(stamp(0), "1970-01-01 00:00:00");
    assert_eq!(stamp(59), "1970-01-01 00:00:59");
    assert_eq!(stamp(86_399), "1970-01-01 23:59:59");
    assert_eq!(stamp(86_400), "1970-01-02 00:00:00");
    assert_eq!(stamp(951_782_400), "2000-02-29 00:00:00");
    assert_eq!(stamp(951_868_800), "2000-03-01 00:00:00");
    assert_eq!(stamp(1_709_251_199), "2024-02-29 23:59:59");
    assert_eq!(stamp(4_107_542_400), "2100-03-01 00:00:00");
    assert_eq!(stamp(1_792_972_800), "2026-10-26 00:00:00");
    assert_eq!(stamp(253_402_300_799), "9999-12-31 23:59:59");
    assert_eq!(stamp(253_402_300_800), "10000-01-01 00:00:00");
    // the largest stamp is written too
    assert!(stamp(u64::MAX).ends_with(":15"));
}

#[test]
fn stamps_agree_with_the_database() {
    let conn = Connection::open_in_memory().unwrap();
    let mut s = conn.prepare("select datetime(?, 'unixepoch')").unwrap();
    let mut seconds: u64 = 0;
    let mut step: u64 = 1;
    let mut compared = 0;
    while seconds < 253_402_300_800 {
        let expected: String = s.query_row((seconds as i64,), |row| row.get(0)).unwrap();
        assert_eq!(stamp(seconds), expected, "{}", seconds);
        compared += 1;
        // steps of growing, odd length reach every month and the ends of years
        step = step * 3 % 40_000_003 + 86_399;
        seconds += step;
    }
    assert!(compared > 5_000);
    // every day of eight years, leap years among them
    for day in 0..(8 * 366) {
        let seconds = 946_684_800 + day * 86_400 + day % 86_400;
        let expected: String = s.query_row((seconds as i64,), |row| row.get(0)).unwrap();
        assert_eq!(stamp(seconds), expected, "{}", seconds);
    }
}
