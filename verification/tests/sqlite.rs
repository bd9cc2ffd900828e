//! The store beside the same operations written in SQL and run by SQLite:
//! after every operation both hold the same boards, columns and cards.

use kk::Repo;
use rusqlite::{Connection, OptionalExtension};

/// The store in SQL: three tables, with the stamps handed in by a counter.
struct SqlStore {
    conn: Connection,
    clock: i64,
}

type Outcome = Result<(), String>;

fn text(e: rusqlite::Error) -> String {
    e.to_string()
}

impl SqlStore {
    fn new() -> SqlStore {
        let conn = Connection::open_in_memory().unwrap();
        conn.pragma_update(None, "foreign_keys", "on").unwrap();
        conn.execute_batch(
            "
            create table boards (
                id integer primary key autoincrement,
                name text not null,
                next_card_number integer not null default 1,
                inserted_at integer not null,
                updated_at integer not null,
                viewed_at integer not null
            );
            create unique index boards_name on boards (name);

            create table statuses (
                id integer primary key autoincrement,
                name text not null,
                column_order integer not null,
                board_id integer not null,
                foreign key(board_id) references boards(id) on delete cascade
            );
            create unique index statuses_name_board_id on statuses (name, board_id);

            create table cards (
                id integer primary key autoincrement,
                board_id integer not null,
                number integer not null,
                status_id integer not null,
                title text not null,
                body text not null,
                inserted_at integer not null,
                updated_at integer not null,
                foreign key(board_id) references boards(id) on delete cascade,
                foreign key(status_id) references statuses(id) on delete cascade
            );

            create trigger cards_updated after update on cards
            for each row
            begin
                update boards set updated_at = NEW.updated_at where boards.id = NEW.board_id;
            end;
            ",
        )
        .unwrap();
        let mut store = SqlStore { conn, clock: 0 };
        store.insert_board("my great board").unwrap();
        store
    }

    fn insert_board(&mut self, name: &str) -> Outcome {
        let known: Option<i64> = self
            .conn
            .query_row("select id from boards where name = ?", (name,), |row| row.get(0))
            .optional()
            .map_err(text)?;
        if known.is_none() {
            let now = self.clock + 1;
            self.conn
                .execute(
                    "insert into boards (name, inserted_at, updated_at, viewed_at) values (?, ?, ?, ?)",
                    (name, now, now, now),
                )
                .map_err(text)?;
            self.clock = now;
        }
        Ok(())
    }

    fn create_board(&mut self, name: &str, column_names: &[&str]) -> Outcome {
        if column_names.is_empty() {
            return Err("Board must have at least 1 column".to_string());
        }
        let now = self.clock + 1;
        let tx = self.conn.transaction().map_err(text)?;
        let board_id: i64 = tx
            .query_row(
                "insert into boards (name, inserted_at, updated_at, viewed_at)
                 values (?, ?, ?, ?) returning id",
                (name, now, now, now),
                |row| row.get(0),
            )
            .map_err(text)?;
        for (column_order, column_name) in column_names.iter().enumerate() {
            tx.execute(
                "insert into statuses (name, column_order, board_id) values (?, ?, ?)",
                (*column_name, column_order as i64, board_id),
            )
            .map_err(text)?;
        }
        tx.commit().map_err(text)?;
        self.clock = now;
        Ok(())
    }

    fn load_board(&mut self, board_id: i64) -> Outcome {
        let now = self.clock + 1;
        let changed = self
            .conn
            .execute("update boards set viewed_at = ? where id = ?", (now, board_id))
            .map_err(text)?;
        if changed == 0 {
            return Err("no such board".to_string());
        }
        self.clock = now;
        Ok(())
    }

    fn insert_card(&mut self, board_id: i64, title: &str, body: &str) -> Outcome {
        let now = self.clock + 1;
        let tx = self.conn.transaction().map_err(text)?;
        let number: i64 = tx
            .query_row("select next_card_number from boards where id = ?", (board_id,), |row| {
                row.get(0)
            })
            .map_err(text)?;
        let status_id: i64 = tx
            .query_row(
                "select id from statuses where board_id = ?
                 order by column_order asc, id asc limit 1",
                (board_id,),
                |row| row.get(0),
            )
            .map_err(text)?;
        tx.execute("update boards set next_card_number = ? where id = ?", (number + 1, board_id))
            .map_err(text)?;
        tx.execute(
            "insert into cards (board_id, number, status_id, title, body, inserted_at, updated_at)
             values (?, ?, ?, ?, ?, ?, ?)",
            (board_id, number, status_id, title, body, now, now),
        )
        .map_err(text)?;
        tx.commit().map_err(text)?;
        self.clock = now;
        Ok(())
    }

    fn update_card(&mut self, card_id: i64, title: &str, body: &str) -> Outcome {
        let now = self.clock + 1;
        let changed = self
            .conn
            .execute(
                "update cards set title = ?2, body = ?3, updated_at = ?4 where id = ?1",
                (card_id, title, body, now),
            )
            .map_err(text)?;
        if changed == 0 {
            return Err("no such card".to_string());
        }
        self.clock = now;
        Ok(())
    }

    fn set_card_status(&mut self, board_id: i64, card_id: i64, column_name: &str) -> Outcome {
        let now = self.clock + 1;
        let changed = self
            .conn
            .execute(
                "update cards
                 set status_id = (select id from statuses where board_id = ?1 and name = ?2),
                     updated_at = ?4
                 where id = ?3 and board_id = ?1
                 and exists (select 1 from statuses where board_id = ?1 and name = ?2)",
                (board_id, column_name, card_id, now),
            )
            .map_err(text)?;
        if changed > 0 {
            self.clock = now;
        }
        Ok(())
    }

    fn update_board_columns_order(
        &mut self,
        board_id: i64,
        board_name: &str,
        column_names: &[&str],
    ) -> Outcome {
        let tx = self.conn.transaction().map_err(text)?;
        let known: Option<i64> = tx
            .query_row("select id from boards where id = ?", (board_id,), |row| row.get(0))
            .optional()
            .map_err(text)?;
        if known.is_none() {
            return Err("no such board".to_string());
        }
        for (i, column_name) in column_names.iter().enumerate() {
            tx.execute(
                "insert into statuses (name, column_order, board_id) values (?, ?, ?)
                 on conflict(name, board_id) do update set column_order = excluded.column_order",
                (*column_name, i as i64, board_id),
            )
            .map_err(text)?;
        }
        tx.execute("update boards set name = ? where id = ?", (board_name, board_id))
            .map_err(text)?;
        tx.commit().map_err(text)?;
        // the board is handed out as loaded, which stamps it as viewed
        self.load_board(board_id)
    }

    fn delete_card(&mut self, card_id: i64) -> Outcome {
        self.conn.execute("delete from cards where id = ?", (card_id,)).map_err(text)?;
        Ok(())
    }

    /// All that the store answers: the summaries, and every board with its
    /// columns and cards.
    fn snapshot(&self) -> Snapshot {
        let mut s = self
            .conn
            .prepare(
                "select id, name, inserted_at, updated_at, viewed_at from boards
                 where exists (select 1 from statuses where statuses.board_id = boards.id)
                 order by viewed_at desc, id asc",
            )
            .unwrap();
        let listed: Vec<(i64, String, i64, i64, i64)> = s
            .query_map((), |row| {
                Ok((row.get(0)?, row.get(1)?, row.get(2)?, row.get(3)?, row.get(4)?))
            })
            .unwrap()
            .map(|r| r.unwrap())
            .collect();
        let mut metas = Vec::new();
        for (id, name, inserted_at, updated_at, viewed_at) in listed {
            let columns = self.columns(id).into_iter().map(|(_, name)| name).collect();
            metas.push((id as u64, name, columns, inserted_at as u64, updated_at as u64, viewed_at as u64));
        }

        let mut s = self.conn.prepare("select id, name from boards order by id asc").unwrap();
        let all: Vec<(i64, String)> = s
            .query_map((), |row| Ok((row.get(0)?, row.get(1)?)))
            .unwrap()
            .map(|r| r.unwrap())
            .collect();
        let mut boards = Vec::new();
        for (id, name) in all {
            let mut columns = Vec::new();
            for (status_id, column_name) in self.columns(id) {
                let mut s = self
                    .conn
                    .prepare(
                        "select id, number, title, body, inserted_at, updated_at from cards
                         where status_id = ? order by id desc",
                    )
                    .unwrap();
                let cards: Vec<(u64, u64, String, String, u64, u64)> = s
                    .query_map((status_id,), |row| {
                        Ok((
                            row.get::<_, i64>(0)? as u64,
                            row.get::<_, i64>(1)? as u64,
                            row.get(2)?,
                            row.get(3)?,
                            row.get::<_, i64>(4)? as u64,
                            row.get::<_, i64>(5)? as u64,
                        ))
                    })
                    .unwrap()
                    .map(|r| r.unwrap())
                    .collect();
                columns.push((column_name, cards));
            }
            boards.push((id as u64, name, columns));
        }
        Snapshot { metas, boards }
    }

    fn columns(&self, board_id: i64) -> Vec<(i64, String)> {
        let mut s = self
            .conn
            .prepare(
                "select id, name from statuses where board_id = ?
                 order by column_order asc, id asc",
            )
            .unwrap();
        s.query_map((board_id,), |row| Ok((row.get(0)?, row.get(1)?)))
            .unwrap()
            .map(|r| r.unwrap())
            .collect()
    }
}

#[derive(Debug, PartialEq)]
struct Snapshot {
    metas: Vec<(u64, String, Vec<String>, u64, u64, u64)>,
    boards: Vec<(u64, String, Vec<(String, Vec<(u64, u64, String, String, u64, u64)>)>)>,
}

fn snapshot(repo: &Repo) -> Snapshot {
    let metas = repo
        .get_board_metas()
        .into_iter()
        .map(|m| (m.id, m.name, m.columns, m.inserted_at, m.updated_at, m.viewed_at))
        .collect();
    let boards = repo
        .boards()
        .iter()
        .map(|b| {
            let columns = repo
                .get_cards_for_board(b.id)
                .into_iter()
                .map(|c| {
                    let cards = c
                        .cards
                        .into_iter()
                        .map(|k| (k.id, k.number, k.title, k.body, k.inserted_at, k.updated_at))
                        .collect();
                    (c.name, cards)
                })
                .collect();
            (b.id, b.name.clone(), columns)
        })
        .collect();
    Snapshot { metas, boards }
}

/// One operation of the store.
#[derive(Debug, Clone)]
enum Op {
    InsertBoard(String),
    CreateBoard(String, Vec<String>),
    LoadBoard(u64),
    InsertCard(u64, String, String),
    UpdateCard(u64, String, String),
    SetCardStatus(u64, u64, String),
    Reorder(u64, String, Vec<String>),
    DeleteCard(u64),
}

fn refs(names: &[String]) -> Vec<&str> {
    names.iter().map(|n| n.as_str()).collect()
}

fn run_both(ops: &[Op]) {
    let mut repo = Repo::new();
    let mut sql = SqlStore::new();
    assert_eq!(snapshot(&repo), sql.snapshot());
    for op in ops {
        let (ours, theirs): (bool, bool) = match op {
            Op::InsertBoard(name) => {
                (repo.insert_board(name).is_ok(), sql.insert_board(name).is_ok())
            }
            Op::CreateBoard(name, columns) => (
                repo.create_board(name, &refs(columns)).is_ok(),
                sql.create_board(name, &refs(columns)).is_ok(),
            ),
            Op::LoadBoard(id) => (repo.load_board(*id).is_ok(), sql.load_board(*id as i64).is_ok()),
            Op::InsertCard(id, title, body) => (
                repo.insert_card(*id, title, body).is_ok(),
                sql.insert_card(*id as i64, title, body).is_ok(),
            ),
            Op::UpdateCard(id, title, body) => (
                repo.update_card(*id, title, body).is_ok(),
                sql.update_card(*id as i64, title, body).is_ok(),
            ),
            Op::SetCardStatus(board, card, name) => (
                repo.set_card_status(*board, *card, name).is_ok(),
                sql.set_card_status(*board as i64, *card as i64, name).is_ok(),
            ),
            Op::Reorder(id, name, columns) => (
                repo.update_board_columns_order(*id, name, &refs(columns)).is_ok(),
                sql.update_board_columns_order(*id as i64, name, &refs(columns)).is_ok(),
            ),
            Op::DeleteCard(id) => {
                repo.delete_card(*id);
                (true, sql.delete_card(*id as i64).is_ok())
            }
        };
        assert_eq!(ours, theirs, "{:?}", op);
        assert_eq!(snapshot(&repo), sql.snapshot(), "after {:?}", op);
        assert_eq!(repo.counters().clock, sql.clock as u64, "after {:?}", op);
    }
}

fn s(text: &str) -> String {
    text.to_string()
}

#[test]
fn store_agrees_with_sqlite_on_a_working_day() {
    run_both(&[
        Op::CreateBoard(s("Board1"), vec![s("Todo"), s("Doing"), s("Done")]),
        Op::InsertCard(2, s("a"), s("1")),
        Op::InsertCard(2, s("b"), s("2")),
        Op::CreateBoard(s("Board2"), vec![s("Todo")]),
        Op::InsertCard(3, s("c"), s("3")),
        Op::InsertCard(3, s("d"), s("4")),
        Op::SetCardStatus(2, 1, s("Doing")),
        Op::SetCardStatus(2, 2, s("Done")),
        Op::SetCardStatus(2, 1, s("Done")),
        Op::UpdateCard(3, s("c2"), s("changed")),
        Op::LoadBoard(2),
        Op::Reorder(2, s("Renamed"), vec![s("Done"), s("Review"), s("Todo"), s("Doing")]),
        Op::InsertCard(2, s("e"), s("5")),
        Op::DeleteCard(1),
        Op::InsertCard(2, s("f"), s("6")),
        Op::LoadBoard(3),
        Op::InsertBoard(s("Board3")),
        Op::InsertBoard(s("Board3")),
    ]);
}

#[test]
fn store_agrees_with_sqlite_on_refusals() {
    run_both(&[
        Op::CreateBoard(s("Empty"), vec![]),
        Op::CreateBoard(s("Board1"), vec![s("Todo")]),
        Op::CreateBoard(s("Board1"), vec![s("Other")]),
        Op::CreateBoard(s("Board2"), vec![s("a"), s("b"), s("a")]),
        Op::CreateBoard(s("my great board"), vec![s("a")]),
        Op::InsertCard(1, s("no column"), s("")),
        Op::InsertCard(9, s("no board"), s("")),
        Op::LoadBoard(9),
        Op::UpdateCard(9, s("t"), s("b")),
        Op::SetCardStatus(2, 9, s("Todo")),
        Op::InsertCard(2, s("a"), s("")),
        Op::SetCardStatus(2, 1, s("Nowhere")),
        Op::SetCardStatus(1, 1, s("Todo")),
        Op::SetCardStatus(9, 1, s("Todo")),
        Op::Reorder(9, s("x"), vec![s("a")]),
        Op::Reorder(2, s("my great board"), vec![s("Todo"), s("New")]),
        Op::Reorder(2, s("Board1"), vec![]),
        Op::Reorder(2, s("Board1"), vec![s("New"), s("New"), s("Todo")]),
        Op::Reorder(1, s("my great board"), vec![s("First")]),
        Op::InsertCard(1, s("now there is a column"), s("")),
        Op::DeleteCard(9),
        Op::DeleteCard(1),
        Op::DeleteCard(1),
    ]);
}

/// A sequence of numbers that looks random and is the same on every run.
struct Numbers(u64);

impl Numbers {
    fn next(&mut self, below: u64) -> u64 {
        self.0 = self.0.wrapping_mul(6364136223846793005).wrapping_add(1442695040888963407);
        (self.0 >> 33) % below
    }
}

#[test]
fn store_agrees_with_sqlite_on_many_operations() {
    let names = ["Todo", "Doing", "Done", "Later", "Review"];
    let boards = ["A", "B", "C", "D", "my great board"];
    for seed in 0..8 {
        let mut numbers = Numbers(seed);
        let mut ops = Vec::new();
        for _ in 0..120 {
            let board = numbers.next(6) + 1;
            let card = numbers.next(24) + 1;
            let name = s(names[numbers.next(5) as usize]);
            let title = format!("t{}", numbers.next(100));
            let columns: Vec<String> =
                (0..numbers.next(4)).map(|_| s(names[numbers.next(5) as usize])).collect();
            let board_name = s(boards[numbers.next(5) as usize]);
            ops.push(match numbers.next(10) {
                0 => Op::CreateBoard(board_name, columns),
                1 => Op::InsertBoard(board_name),
                2 => Op::LoadBoard(board),
                3 | 4 | 5 => Op::InsertCard(board, title, s("body")),
                6 => Op::UpdateCard(card, title, s("edited")),
                7 => Op::SetCardStatus(board, card, name),
                8 => Op::Reorder(board, board_name, columns),
                _ => Op::DeleteCard(card),
            });
        }
        run_both(&ops);
    }
}
