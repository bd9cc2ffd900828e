//! The text layout that is exchanged with the user's editor.
//!
//! A card is written as a title line, a rule of `=` characters, a blank line
//! and the body. A board is written as a name line, the same rule and blank
//! line, and one line `- name` for each column. The title or name is the
//! first line of the text, and every column entry is a line of its own.

use vstd::prelude::*;
use vstd::string::*;
use crate::error::Error;

verus! {

/// The text starts with a heading: its first line `[0, e)` is not empty and
/// holds no `=`, the next line is a rule of one or more `=` that ends at
/// `f`, and a blank line follows.
pub open spec fn heading_at(s: Seq<char>, e: int, f: int) -> bool {
    &&& 0 < e
    &&& e + 1 < f
    &&& f + 1 < s.len()
    &&& forall|k: int| 0 <= k < e ==> s[k] != '=' && s[k] != '\n'
    &&& s[e] == '\n'
    &&& forall|k: int| e < k < f ==> s[k] == '='
    &&& s[f] == '\n'
    &&& s[f + 1] == '\n'
}

/// The text starts with a heading.
pub open spec fn has_heading(s: Seq<char>) -> bool {
    exists|e: int, f: int| heading_at(s, e, f)
}

/// Where the heading of `s` lies: the end of its first line and the end of
/// its rule.
pub open spec fn heading_of(s: Seq<char>) -> (int, int) {
    choose|t: (int, int)| heading_at(s, t.0, t.1)
}

/// What the heading of `s` holds: a title or a name, which is the whole
/// first line.
pub open spec fn heading_text(s: Seq<char>) -> Seq<char> {
    s.subrange(0, heading_of(s).0)
}

/// Where the text behind the heading of `s` starts: behind the blank line.
pub open spec fn body_start(s: Seq<char>) -> int {
    heading_of(s).1 + 2
}

/// All that follows the blank line of the heading of `s`.
pub open spec fn text_after_heading(s: Seq<char>) -> Seq<char> {
    s.subrange(body_start(s), s.len() as int)
}

/// The heading of a text lies in one place only.
pub proof fn lemma_heading_unique(s: Seq<char>, e: int, f: int)
    requires
        heading_at(s, e, f),
    ensures
        has_heading(s),
        heading_of(s) == (e, f),
{
    let t = (e, f);
    assert(heading_at(s, t.0, t.1));
    let c = heading_of(s);
    assert(heading_at(s, c.0, c.1));
    if c.0 < e {
        assert(s[c.0] == '\n');
    }
    if e < c.0 {
        assert(s[e] == '\n');
    }
    if c.1 < f {
        assert(s[c.1] == '\n');
    }
    if f < c.1 {
        assert(s[f] == '\n');
    }
}

/// The first position at or after `i` that holds a line break, or the length
/// of `s` where there is none.
pub open spec fn line_end(s: Seq<char>, i: int) -> int
    decreases s.len() - i,
{
    if i < 0 || i >= s.len() {
        s.len() as int
    } else if s[i] == '\n' {
        i
    } else {
        line_end(s, i + 1)
    }
}

/// The line `[i, e)` is a column entry: `- ` and a name that is not empty.
pub open spec fn is_entry(s: Seq<char>, i: int, e: int) -> bool {
    e - i > 2 && s[i] == '-' && s[i + 1] == ' '
}

/// The column entries among the lines from the line start `i` on, in their
/// order: of every line that is a `- ` and a name, the name. Other lines
/// are passed over.
pub open spec fn column_entries(s: Seq<char>, i: int) -> Seq<Seq<char>>
    decreases s.len() + 1 - i,
    via column_entries_decreases
{
    if i < 0 || i >= s.len() {
        Seq::empty()
    } else if is_entry(s, i, line_end(s, i)) {
        seq![s.subrange(i + 2, line_end(s, i))] + column_entries(s, line_end(s, i) + 1)
    } else {
        column_entries(s, line_end(s, i) + 1)
    }
}

#[via_fn]
proof fn column_entries_decreases(s: Seq<char>, i: int) {
    if 0 <= i && i < s.len() {
        lemma_line_end(s, i);
    }
}

/// The columns that the text of a board names: the entries among the lines
/// behind its heading.
pub open spec fn board_columns(s: Seq<char>) -> Seq<Seq<char>> {
    column_entries(s, body_start(s))
}

/// The rule and blank line that part a heading from what follows it.
pub open spec fn rule() -> Seq<char> {
    seq!['\n', '=', '=', '=', '=', '=', '=', '=', '=', '=', '=', '\n', '\n']
}

/// The text that presents a card to the editor.
pub open spec fn card_text(title: Seq<char>, body: Seq<char>) -> Seq<char> {
    title + rule() + body
}

/// The lines that present the columns of a board to the editor.
pub open spec fn column_lines(columns: Seq<Seq<char>>) -> Seq<char>
    decreases columns.len(),
{
    if columns.len() == 0 {
        Seq::empty()
    } else {
        column_lines(columns.drop_last()) + seq!['-', ' '] + columns.last() + seq!['\n']
    }
}

/// The text that presents a board to the editor.
pub open spec fn board_text(name: Seq<char>, columns: Seq<Seq<char>>) -> Seq<char> {
    name + rule() + column_lines(columns)
}

/// The end of a line lies at or behind where the search started, on a line
/// break or at the end of the text, and no line break comes before it.
pub proof fn lemma_line_end(s: Seq<char>, i: int)
    requires
        0 <= i <= s.len(),
    ensures
        i <= line_end(s, i) <= s.len(),
        line_end(s, i) < s.len() ==> s[line_end(s, i)] == '\n',
        forall|k: int| i <= k < line_end(s, i) ==> s[k] != '\n',
    decreases s.len() - i,
{
    if i < s.len() && s[i] != '\n' {
        lemma_line_end(s, i + 1);
    }
}

/// The characters of `s`, one by one.
pub fn chars_of(s: &str) -> (v: Vec<char>)
    ensures
        v@ == s@,
{
    broadcast use vstd::string::group_string_axioms;

    let mut v: Vec<char> = Vec::new();
    for c in it: s.chars()
        invariant
            it.seq() == s@,
            v@ == it.seq().take(it.index()),
    {
        v.push(c);
    }
    v
}

/// Whether two strings hold the same characters.
pub fn same_text(a: &str, b: &str) -> (r: bool)
    ensures
        r == (a@ == b@),
{
    let x = chars_of(a);
    let y = chars_of(b);
    if x.len() != y.len() {
        return false;
    }
    let mut i: usize = 0;
    while i < x.len()
        invariant
            x@ == a@,
            y@ == b@,
            x.len() == y.len(),
            i <= x.len(),
            forall|k: int| 0 <= k < i ==> x@[k] == y@[k],
        decreases x.len() - i,
    {
        if x[i] != y[i] {
            return false;
        }
        i = i + 1;
    }
    assert(x@ =~= y@);
    true
}

/// Where the heading of `v` lies: the end of its first line and the end of
/// its rule.
pub fn find_heading(v: &Vec<char>) -> (r: Option<(usize, usize)>)
    ensures
        match r {
            Some((e, f)) => heading_at(v@, e as int, f as int),
            None => !has_heading(v@),
        },
{
    let n = v.len();
    let mut e: usize = 0;
    while e < n && v[e] != '\n' && v[e] != '='
        invariant
            n == v.len(),
            e <= n,
            forall|k: int| 0 <= k < e ==> v@[k] != '=' && v@[k] != '\n',
        decreases n - e,
    {
        e = e + 1;
    }
    // the first line of a heading can only end here
    assert forall|e2: int, f2: int| heading_at(v@, e2, f2) implies e2 == e by {
        if e2 < e {
            assert(v@[e2] == '\n');
        }
    }
    if e == 0 || e >= n || v[e] != '\n' {
        return None;
    }
    let mut f: usize = e + 1;
    while f < n && v[f] == '='
        invariant
            n == v.len(),
            e < f <= n,
            forall|k: int| e < k < f ==> v@[k] == '=',
        decreases n - f,
    {
        f = f + 1;
    }
    // the rule of a heading can only end here
    assert forall|e2: int, f2: int| heading_at(v@, e2, f2) implies f2 == f by {
        if f2 < f {
            assert(v@[f2] == '\n');
        }
    }
    if f > e + 1 && n - f > 1 && v[f] == '\n' && v[f + 1] == '\n' {
        Some((e, f))
    } else {
        None
    }
}

/// Splits the text of a card into its title and its body.
///
/// The title is the first line of the text; a rule of `=` and a blank line
/// follow it; the body is all that comes then, to the end of the text.
pub fn parse_raw_card_text<'a>(raw_card_text: &'a str) -> (r: Result<(&'a str, &'a str), Error>)
    ensures
        match r {
            Ok((title, body)) => {
                &&& has_heading(raw_card_text@)
                &&& title@ == heading_text(raw_card_text@)
                &&& body@ == text_after_heading(raw_card_text@)
            },
            Err(err) => err == Error::CardTextMalformed && !has_heading(raw_card_text@),
        },
{
    let v = chars_of(raw_card_text);
    match find_heading(&v) {
        Some((e, f)) => {
            let n = v.len();
            proof {
                lemma_heading_unique(raw_card_text@, e as int, f as int);
            }
            let title = raw_card_text.substring_char(0, e);
            let body = raw_card_text.substring_char(f + 2, n);
            Ok((title, body))
        },
        None => Err(Error::CardTextMalformed),
    }
}

/// The views of a list of string slices.
pub open spec fn views(items: Seq<&str>) -> Seq<Seq<char>> {
    items.map_values(|item: &str| item@)
}

/// Collects the column entries among the lines of `raw` from the line
/// start `start` on; `v` holds the characters of `raw`.
fn collect_columns<'a>(raw: &'a str, v: &Vec<char>, start: usize) -> (columns: Vec<&'a str>)
    requires
        v@ == raw@,
        start <= v.len(),
    ensures
        views(columns@) == column_entries(raw@, start as int),
{
    let n = v.len();
    let mut columns: Vec<&'a str> = Vec::new();
    let mut i: usize = start;
    assert(views(columns@) + column_entries(v@, i as int) =~= column_entries(v@, start as int));
    while i < n
        invariant
            n == v.len(),
            v@ == raw@,
            start <= i <= n,
            views(columns@) + column_entries(v@, i as int) == column_entries(v@, start as int),
        decreases n - i,
    {
        let mut e: usize = i;
        while e < n && v[e] != '\n'
            invariant
                n == v.len(),
                i <= e <= n,
                line_end(v@, e as int) == line_end(v@, i as int),
            decreases n - e,
        {
            e = e + 1;
        }
        assert(line_end(v@, i as int) == e);
        let next: usize = if e < n {
            e + 1
        } else {
            n
        };
        assert(column_entries(v@, next as int) == column_entries(v@, e + 1));
        if e - i > 2 && v[i] == '-' && v[i + 1] == ' ' {
            let entry = raw.substring_char(i + 2, e);
            proof {
                let before = views(columns@);
                assert(views(columns@.push(entry)) =~= before.push(entry@));
                assert(before.push(entry@) + column_entries(v@, next as int) =~= before + (seq![
                    entry@,
                ] + column_entries(v@, next as int)));
            }
            columns.push(entry);
        }
        i = next;
    }
    proof {
        assert(views(columns@) + Seq::<Seq<char>>::empty() =~= views(columns@));
    }
    columns
}

/// Splits the text of a board into its name and the names of its columns.
///
/// The name is the first line of the text; a rule of `=` and a blank line
/// follow it. The columns are named by the lines behind that which are a
/// `- ` and a name, in their order; other lines are passed over. A text
/// without such a heading is refused, and so is one without any column.
pub fn parse_raw_board_text<'a>(raw_board_text: &'a str) -> (r: Result<
    (&'a str, Vec<&'a str>),
    Error,
>)
    ensures
        match r {
            Ok((name, columns)) => {
                &&& has_heading(raw_board_text@)
                &&& name@ == heading_text(raw_board_text@)
                &&& views(columns@) == board_columns(raw_board_text@)
                &&& columns@.len() > 0
            },
            Err(err) => if !has_heading(raw_board_text@) {
                err == Error::BoardNameMissing
            } else {
                err == Error::BoardColumnsMissing && board_columns(raw_board_text@).len() == 0
            },
        },
{
    let v = chars_of(raw_board_text);
    match find_heading(&v) {
        Some((e, f)) => {
            proof {
                lemma_heading_unique(raw_board_text@, e as int, f as int);
            }
            let name = raw_board_text.substring_char(0, e);
            let columns = collect_columns(raw_board_text, &v, f + 2);
            assert(views(columns@).len() == columns@.len());
            if columns.len() == 0 {
                Err(Error::BoardColumnsMissing)
            } else {
                Ok((name, columns))
            }
        },
        None => Err(Error::BoardNameMissing),
    }
}

/// The text that a new card starts from.
pub open spec fn new_card_text() -> Seq<char> {
    "Title\n==========\n\nContent goes here"@
}

/// The text that a new board starts from.
pub open spec fn new_board_text() -> Seq<char> {
    "Board Name\n==========\n\n- Column #1\n- Column #2\n- Column #3"@
}

/// The text that a new card starts from.
pub fn new_card_template() -> (text: String)
    ensures
        text@ == new_card_text(),
{
    "Title\n==========\n\nContent goes here".to_owned()
}

/// The text that a new board starts from.
pub fn new_board_template() -> (text: String)
    ensures
        text@ == new_board_text(),
{
    "Board Name\n==========\n\n- Column #1\n- Column #2\n- Column #3".to_owned()
}

/// The text that presents a card to the editor.
pub fn card_template(title: &str, body: &str) -> (text: String)
    ensures
        text@ == card_text(title@, body@),
{
    proof {
        reveal_strlit("\n==========\n\n");
        assert("\n==========\n\n"@ =~= rule());
    }
    let mut text = title.to_owned();
    text.append("\n==========\n\n");
    text.append(body);
    text
}

/// The text that presents a board to the editor.
pub fn board_template(name: &str, columns: &Vec<String>) -> (text: String)
    ensures
        text@ == board_text(name@, crate::board::name_views(columns@)),
{
    proof {
        reveal_strlit("\n==========\n\n");
        reveal_strlit("- ");
        reveal_strlit("\n");
        assert("\n==========\n\n"@ =~= rule());
        assert("- "@ =~= seq!['-', ' ']);
        assert("\n"@ =~= seq!['\n']);
    }
    let ghost names = crate::board::name_views(columns@);
    let mut text = name.to_owned();
    text.append("\n==========\n\n");
    let mut i: usize = 0;
    assert(column_lines(names.take(0)) =~= Seq::<char>::empty());
    while i < columns.len()
        invariant
            i <= columns.len(),
            names == crate::board::name_views(columns@),
            "- "@ == seq!['-', ' '],
            "\n"@ == seq!['\n'],
            text@ == name@ + rule() + column_lines(names.take(i as int)),
        decreases columns.len() - i,
    {
        proof {
            let next = names.take(i + 1);
            assert(next.drop_last() =~= names.take(i as int));
            assert(next.last() == columns[i as int]@);
        }
        text.append("- ");
        text.append(columns[i].as_str());
        text.append("\n");
        assert(text@ =~= name@ + rule() + column_lines(names.take(i + 1)));
        i = i + 1;
    }
    assert(names.take(columns.len() as int) =~= names);
    text
}

} // verus!
