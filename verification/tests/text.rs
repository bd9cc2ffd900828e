use kk::text::{board_template, card_template, new_board_template, new_card_template};
use kk::{parse_raw_board_text, parse_raw_card_text, Error, ErrorKind};
use regex::Regex;

#[test]
fn card_text_splits_into_title_and_body() {
    let (title, body) = parse_raw_card_text("Valid Title\n==========\n\nValid card body").unwrap();
    assert_eq!(title, "Valid Title");
    assert_eq!(body, "Valid card body");
}

#[test]
fn card_body_may_be_empty_or_long() {
    assert_eq!(parse_raw_card_text("T\n=\n\n").unwrap(), ("T", ""));
    assert_eq!(
        parse_raw_card_text("T\n===\n\nline 1\n\nline 3\n").unwrap(),
        ("T", "line 1\n\nline 3\n")
    );
    // a later heading belongs to the body
    assert_eq!(
        parse_raw_card_text("A\n==\n\nB\n==\n\nC").unwrap(),
        ("A", "B\n==\n\nC")
    );
}

#[test]
fn card_title_is_the_whole_first_line() {
    assert_eq!(parse_raw_card_text("a - b\n==\n\nx").unwrap(), ("a - b", "x"));
    assert_eq!(parse_raw_card_text(" Title \n=\n\n\nx").unwrap(), (" Title ", "\nx"));
    assert_eq!(parse_raw_card_text("é ü\n==\n\nß").unwrap(), ("é ü", "ß"));
    // a title does not start in the middle of a line, nor on a later line
    assert_eq!(parse_raw_card_text("a=b=c\n==\n\nx").unwrap_err(), Error::CardTextMalformed);
    assert_eq!(parse_raw_card_text("junk\nTitle\n==\n\nx").unwrap_err(), Error::CardTextMalformed);
    assert_eq!(parse_raw_card_text("\nTitle\n==\n\nx").unwrap_err(), Error::CardTextMalformed);
    assert_eq!(parse_raw_card_text("=\nTitle\n==\n\nx").unwrap_err(), Error::CardTextMalformed);
}

#[test]
fn card_text_without_heading_is_a_parse_failure() {
    for text in [
        "",
        "bad input",
        "Bad input",
        "Title\n\n\nbody",
        "Title\n==========\nbody",
        "Title\n==========\n",
        "\n==========\n\nbody",
        "Title=\n==========\n\nbody",
        "Title\n====x\n\nbody",
        "Title\r\n====\r\n\r\nbody",
    ] {
        let err = parse_raw_card_text(text).unwrap_err();
        assert_eq!(err, Error::CardTextMalformed, "{:?}", text);
        assert_eq!(err.kind(), ErrorKind::ParseFailure);
        assert_eq!(err.message(), "could not parse raw card text");
    }
}

#[test]
fn board_text_splits_into_name_and_columns() {
    let (name, columns) =
        parse_raw_board_text("Some Board Name\n==========\n\n- Todo").unwrap();
    assert_eq!(name, "Some Board Name");
    assert_eq!(columns, vec!["Todo"]);

    let (name, columns) =
        parse_raw_board_text("Board Name\n==========\n\n- Column #1\n- Column #2\n- Column #3")
            .unwrap();
    assert_eq!(name, "Board Name");
    assert_eq!(columns, vec!["Column #1", "Column #2", "Column #3"]);
}

#[test]
fn board_columns_are_whole_lines_behind_the_heading() {
    // the name line is no entry, whatever it holds
    let (name, columns) = parse_raw_board_text("a - b\n==========\n\n- x\n").unwrap();
    assert_eq!(name, "a - b");
    assert_eq!(columns, vec!["x"]);

    // an entry starts its line; other lines are passed over
    let (_, columns) =
        parse_raw_board_text("B\n=\n\nfirst - a\n-- b\n- - c\n-  \n- \n-d\n - e\n\n- f").unwrap();
    assert_eq!(columns, vec!["- c", " ", "f"]);

    let (name, columns) = parse_raw_board_text("- B\n=\n\n- Todo\n- Doing\n").unwrap();
    assert_eq!(name, "- B");
    assert_eq!(columns, vec!["Todo", "Doing"]);
}

#[test]
fn board_text_failures_tell_name_from_columns() {
    let err = parse_raw_board_text("Some Board Name\n==========\n\n").unwrap_err();
    assert_eq!(err, Error::BoardColumnsMissing);
    assert_eq!(err.kind(), ErrorKind::ParseFailure);
    assert_eq!(err.message(), "could not parse raw board text: bad columns");

    // entries in the name line or in the middle of a line are no columns
    assert_eq!(
        parse_raw_board_text("a - b\n=\n\nx - y\n").unwrap_err(),
        Error::BoardColumnsMissing
    );
    assert_eq!(
        parse_raw_board_text("junk\nB\n=\n\n- Todo").unwrap_err(),
        Error::BoardNameMissing
    );

    let err = parse_raw_board_text("- Todo\n- Doing").unwrap_err();
    assert_eq!(err, Error::BoardNameMissing);
    assert_eq!(err.kind(), ErrorKind::ParseFailure);
    assert_eq!(err.message(), "could not parse raw board text: bad board name");

    assert_eq!(parse_raw_board_text("").unwrap_err(), Error::BoardNameMissing);
    assert_eq!(parse_raw_board_text("B\n=\n\n-\n- \n").unwrap_err(), Error::BoardColumnsMissing);
}

#[test]
fn templates_have_the_expected_text() {
    assert_eq!(new_card_template(), "Title\n==========\n\nContent goes here");
    assert_eq!(
        new_board_template(),
        "Board Name\n==========\n\n- Column #1\n- Column #2\n- Column #3"
    );
    assert_eq!(card_template("T", "a\nb"), "T\n==========\n\na\nb");
    assert_eq!(
        board_template("B", &vec!["Todo".to_string(), "Doing".to_string()]),
        "B\n==========\n\n- Todo\n- Doing\n"
    );
    assert_eq!(board_template("B", &vec![]), "B\n==========\n\n");
}

#[test]
fn templates_read_back() {
    let text = card_template("Title", "body\nmore");
    assert_eq!(parse_raw_card_text(&text).unwrap(), ("Title", "body\nmore"));

    let text = board_template("Board", &vec!["Todo".to_string(), "Doing".to_string()]);
    let (name, columns) = parse_raw_board_text(&text).unwrap();
    assert_eq!(name, "Board");
    assert_eq!(columns, vec!["Todo", "Doing"]);

    assert_eq!(
        parse_raw_card_text(&new_card_template()).unwrap(),
        ("Title", "Content goes here")
    );
    let template = new_board_template();
    let (name, columns) = parse_raw_board_text(&template).unwrap();
    assert_eq!(name, "Board Name");
    assert_eq!(columns.len(), 3);
}

fn samples() -> Vec<String> {
    let pieces = [
        "", "T", "Title", "a=b", "=", "==", "=====", "\n", "\n\n", "- ", "- x", "-- y", "- - z",
        " ", "x - y", "\r", "é", "-", "t\n=\n\n", "\n=\n\nbody", "Name - x\n===\n\n",
        "- a\n- b\n",
    ];
    let mut out: Vec<String> = Vec::new();
    for a in pieces {
        for b in pieces {
            for c in pieces {
                out.push(format!("{}{}{}", a, b, c));
                out.push(format!("{}\n{}\n{}", a, b, c));
                out.push(format!("{}\n{}\n\n{}", a, b, c));
            }
        }
    }
    out
}

#[test]
fn card_text_agrees_with_the_pattern() {
    let pattern = Regex::new(r"(?s)\A(?<title>[^=\n]+)\n=+\n\n(?<body>.*)").unwrap();
    let mut matched = 0;
    for text in samples() {
        let expected = pattern
            .captures(&text)
            .map(|c| (c.name("title").unwrap().as_str(), c.name("body").unwrap().as_str()));
        let got = parse_raw_card_text(&text).ok();
        assert_eq!(got, expected, "{:?}", text);
        if expected.is_some() {
            matched += 1;
        }
    }
    assert!(matched > 100);
}

#[test]
fn board_text_agrees_with_the_patterns() {
    let heading = Regex::new(r"\A(?<name>[^=\n]+)\n=+\n\n").unwrap();
    let entry = Regex::new(r"(?m)^- (?<column>[^\n]+)$").unwrap();
    let mut matched = 0;
    for text in samples() {
        let expected = match heading.captures(&text) {
            None => Err(Error::BoardNameMissing),
            Some(found) => {
                let rest = &text[found.get(0).unwrap().end()..];
                let columns: Vec<&str> =
                    entry.captures_iter(rest).map(|c| c.name("column").unwrap().as_str()).collect();
                if columns.is_empty() {
                    Err(Error::BoardColumnsMissing)
                } else {
                    Ok((found.name("name").unwrap().as_str(), columns))
                }
            }
        };
        let got = parse_raw_board_text(&text);
        if got.is_ok() {
            matched += 1;
        }
        assert_eq!(got, expected, "{:?}", text);
    }
    assert!(matched > 100);
}
