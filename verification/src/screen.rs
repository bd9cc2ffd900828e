//! The texts that the screen shows: lines for cards and boards, the labels
//! of the deletion dialog, and the mode line.
//!
//! Where and how the texts are drawn is left to the host.

use vstd::prelude::*;
use vstd::string::*;
use crate::board::{BoardMeta, BoardMetaView, Card, CardView, name_views};
use crate::mode::{ConfirmationState, Mode};
use crate::text::chars_of;

verus! {

/// What `textwrap::fill` makes of a text and a width.
pub uninterp spec fn textwrap_fill(text: Seq<char>, width: int) -> Seq<char>;

/// What `textwrap::wrap` makes of a text and a width: the lines, in order.
pub uninterp spec fn textwrap_wrap(text: Seq<char>, width: int) -> Seq<Seq<char>>;

/// Calls `textwrap::fill` with a plain width: the text is broken into lines
/// of at most `width` columns, joined by line breaks. What comes back is
/// what the function makes of these two arguments, which is all that is
/// claimed of it.
#[verifier::external_body]
fn fill(text: &str, width: u16) -> (filled: String)
    ensures
        filled@ == textwrap_fill(text@, width as int),
{
    textwrap::fill(text, width as usize)
}

/// Calls `textwrap::wrap` with a plain width and hands out the lines as
/// owned strings. What comes back is what the function makes of these two
/// arguments, which is all that is claimed of it.
#[verifier::external_body]
fn wrap(text: &str, width: u16) -> (lines: Vec<String>)
    ensures
        name_views(lines@) == textwrap_wrap(text@, width as int),
{
    textwrap::wrap(text, width as usize).into_iter().map(|line| line.into_owned()).collect()
}

/// The character of a decimal digit.
pub open spec fn digit_char(d: nat) -> char {
    if d == 0 {
        '0'
    } else if d == 1 {
        '1'
    } else if d == 2 {
        '2'
    } else if d == 3 {
        '3'
    } else if d == 4 {
        '4'
    } else if d == 5 {
        '5'
    } else if d == 6 {
        '6'
    } else if d == 7 {
        '7'
    } else if d == 8 {
        '8'
    } else {
        '9'
    }
}

/// A number in decimal digits, without leading zeros.
pub open spec fn decimal_text(n: nat) -> Seq<char>
    decreases n,
{
    if n < 10 {
        seq![digit_char(n)]
    } else {
        decimal_text(n / 10).push(digit_char(n % 10))
    }
}

/// A date of the calendar.
pub struct Date {
    pub year: int,
    pub month: int,
    pub day: int,
}

/// Whether `year` has a leap day: every fourth year has, but of the hundreds
/// only every fourth.
pub open spec fn is_leap_year(year: int) -> bool {
    year % 4 == 0 && (year % 100 != 0 || year % 400 == 0)
}

/// The number of days of a month.
pub open spec fn days_in_month(year: int, month: int) -> int {
    if month == 2 {
        if is_leap_year(year) {
            29
        } else {
            28
        }
    } else if month == 4 || month == 6 || month == 9 || month == 11 {
        30
    } else {
        31
    }
}

/// The number of days from the first of January 1970 to `date`, counted
/// with the rule of leap years: every fourth year, but of the hundreds only
/// every fourth. March is taken as the first month of the year, so that the
/// leap day comes last.
pub open spec fn days_to(date: Date) -> int {
    let year = if date.month <= 2 {
        date.year - 1
    } else {
        date.year
    };
    let months = if date.month > 2 {
        date.month - 3
    } else {
        date.month + 9
    };
    let era = year / 400;
    let year_of_era = year - era * 400;
    let day_of_year = (153 * months + 2) / 5 + date.day - 1;
    era * 146097 + year_of_era * 365 + year_of_era / 4 - year_of_era / 100 + day_of_year - 719468
}

/// The date that lies `days` days after the first of January 1970.
pub open spec fn date_of(days: nat) -> Date {
    let shifted = days + 719468;
    let era = shifted / 146097;
    let day_of_era = shifted - era * 146097;
    let year_of_era = (day_of_era - day_of_era / 1460 + day_of_era / 36524 - day_of_era / 146096)
        / 365;
    let day_of_year = day_of_era - (365 * year_of_era + year_of_era / 4 - year_of_era / 100);
    let months = (5 * day_of_year + 2) / 153;
    let day = day_of_year - (153 * months + 2) / 5 + 1;
    let month = if months < 10 {
        months + 3
    } else {
        months - 9
    };
    Date {
        year: year_of_era + era * 400 + if month <= 2 {
            1int
        } else {
            0int
        },
        month,
        day,
    }
}

/// The date of a number of days is a date of the calendar that lies that
/// many days after the first of January 1970.
pub proof fn law_date_of_days(days: nat)
    ensures
        days_to(date_of(days)) == days,
        1 <= date_of(days).month <= 12,
        1 <= date_of(days).day <= days_in_month(date_of(days).year, date_of(days).month),
        date_of(days).year >= 1970,
{
    let shifted = (days + 719468) as int;
    let era = shifted / 146097;
    let day_of_era = shifted - era * 146097;
    assert(0 <= day_of_era <= 146096);
    let year_of_era = (day_of_era - day_of_era / 1460 + day_of_era / 36524 - day_of_era / 146096)
        / 365;
    assert(0 <= year_of_era <= 399);
    let day_of_year = day_of_era - (365 * year_of_era + year_of_era / 4 - year_of_era / 100);
    lemma_day_of_year(day_of_era);
    assert(0 <= day_of_year <= 365);
    let months = (5 * day_of_year + 2) / 153;
    assert(0 <= months <= 11);
    let day = day_of_year - (153 * months + 2) / 5 + 1;
    assert(1 <= day <= 31);
    let month = if months < 10 { months + 3 } else { months - 9 };
    let date = date_of(days);
    assert(date.month == month);
    assert(date.day == day);
    let year = if month <= 2 { date.year - 1 } else { date.year };
    assert(year == year_of_era + era * 400);
    assert(year / 400 == era);
    assert(era >= 4);
}

/// The day of an era of 400 years falls into one of its years.
proof fn lemma_day_of_year(day_of_era: int)
    requires
        0 <= day_of_era <= 146096,
    ensures
        ({
            let year_of_era = (day_of_era - day_of_era / 1460 + day_of_era / 36524 - day_of_era
                / 146096) / 365;
            0 <= day_of_era - (365 * year_of_era + year_of_era / 4 - year_of_era / 100) <= 365
        }),
{
}

/// Two decimal digits.
pub open spec fn two_digits(n: nat) -> Seq<char> {
    seq![digit_char(n / 10), digit_char(n % 10)]
}

/// A year in at least four decimal digits.
pub open spec fn year_text(year: nat) -> Seq<char> {
    if year < 10 {
        seq!['0', '0', '0'] + decimal_text(year)
    } else if year < 100 {
        seq!['0', '0'] + decimal_text(year)
    } else if year < 1000 {
        seq!['0'] + decimal_text(year)
    } else {
        decimal_text(year)
    }
}

/// The stamp `seconds`, counted from the start of 1970, as date and time of
/// day: `YYYY-MM-DD HH:MM:SS`.
pub open spec fn stamp_text(seconds: u64) -> Seq<char> {
    let date = date_of((seconds / 86400) as nat);
    let rest = seconds % 86400;
    year_text(date.year as nat) + seq!['-'] + two_digits(date.month as nat) + seq!['-']
        + two_digits(date.day as nat) + seq![' '] + two_digits(rest as nat / 3600) + seq![':']
        + two_digits(rest as nat % 3600 / 60) + seq![':'] + two_digits(rest as nat % 60)
}

/// `count` spaces.
pub open spec fn spaces(count: nat) -> Seq<char> {
    Seq::new(count, |i: int| ' ')
}

/// A text filled up with spaces to `width` characters; a longer text is
/// left as it is.
pub open spec fn padded(text: Seq<char>, width: nat) -> Seq<char> {
    if text.len() >= width {
        text
    } else {
        text + spaces((width - text.len()) as nat)
    }
}

/// A text with a space in place of every line break.
pub open spec fn flattened(text: Seq<char>) -> Seq<char> {
    text.map_values(|c: char| if c == '\n' { ' ' } else { c })
}

/// The line that stands for a card in its column: its identity and title.
pub open spec fn card_line_text(card: CardView) -> Seq<char> {
    decimal_text(card.id as nat) + seq![' '] + card.title
}

/// The width of the columns of the board picker.
pub const PICKER_COLUMN: usize = 30;

/// The line that stands for a board in the picker: its name and the date
/// and time of its last change, last view and creation, in columns.
pub open spec fn board_line_text(meta: BoardMetaView) -> Seq<char> {
    padded(meta.name, PICKER_COLUMN as nat) + padded(
        stamp_text(meta.updated_at),
        PICKER_COLUMN as nat,
    ) + padded(stamp_text(meta.viewed_at), PICKER_COLUMN as nat) + padded(
        stamp_text(meta.inserted_at),
        PICKER_COLUMN as nat,
    )
}

/// The keys of each mode and what they do.
pub open spec fn key_hints_text(mode: Mode) -> Seq<char> {
    match mode {
        Mode::ViewingBoard =>
            "[h,j,k,l/arrows] - move │ [q] - quit │ [enter] - view card │ [m] - move card │ [n] - new card │ [e] - edit card │ [d] - delete card │ [b] - view boards"@,
        Mode::ViewingCardDetail => "[enter/esc] - close detail view │ [q] - quit"@,
        Mode::MovingCard =>
            "[h/left] - move card left │ [l/right] - move card right │ [q] - quit │ [m|enter|esc] - close card detail view"@,
        Mode::ViewingBoards =>
            "[j/down] - down │ [k/up] - up │ [enter] - view board │ [n] - new board │ [e] - edit board │ [q] - quit"@,
        Mode::ConfirmCardDeletion =>
            "[h/left] - left │ [l/right] - right │ [enter] - confirm selection"@,
    }
}

/// What the mode line shows: the error, on one line, where there is one,
/// and the keys of the mode otherwise.
pub open spec fn mode_line_text(error: Option<Seq<char>>, mode: Mode) -> Seq<char> {
    match error {
        Some(text) => " - Error: "@ + flattened(text),
        None => key_hints_text(mode),
    }
}

fn digit(d: u64) -> (text: &'static str)
    requires
        d < 10,
    ensures
        text@ == seq![digit_char(d as nat)],
{
    proof {
        reveal_strlit("0");
        reveal_strlit("1");
        reveal_strlit("2");
        reveal_strlit("3");
        reveal_strlit("4");
        reveal_strlit("5");
        reveal_strlit("6");
        reveal_strlit("7");
        reveal_strlit("8");
        reveal_strlit("9");
    }
    let text = if d == 0 {
        "0"
    } else if d == 1 {
        "1"
    } else if d == 2 {
        "2"
    } else if d == 3 {
        "3"
    } else if d == 4 {
        "4"
    } else if d == 5 {
        "5"
    } else if d == 6 {
        "6"
    } else if d == 7 {
        "7"
    } else if d == 8 {
        "8"
    } else {
        "9"
    };
    assert(text@ =~= seq![digit_char(d as nat)]);
    text
}

/// A number in decimal digits.
pub fn decimal(n: u64) -> (text: String)
    ensures
        text@ == decimal_text(n as nat),
    decreases n,
{
    if n < 10 {
        digit(n).to_owned()
    } else {
        let mut text = decimal(n / 10);
        text.append(digit(n % 10));
        assert(text@ =~= decimal_text(n as nat));
        text
    }
}

/// Two decimal digits.
fn two(n: u64) -> (text: String)
    requires
        n < 100,
    ensures
        text@ == two_digits(n as nat),
{
    let mut text = digit(n / 10).to_owned();
    text.append(digit(n % 10));
    assert(text@ =~= two_digits(n as nat));
    text
}

/// A stamp as date and time of day, `YYYY-MM-DD HH:MM:SS`: the seconds
/// are counted from the start of 1970, without leap seconds.
pub fn stamp(seconds: u64) -> (text: String)
    ensures
        text@ == stamp_text(seconds),
{
    proof {
        reveal_strlit("0");
        reveal_strlit("00");
        reveal_strlit("000");
        reveal_strlit("-");
        reveal_strlit(" ");
        reveal_strlit(":");
        assert("000"@ =~= seq!['0', '0', '0']);
        assert("00"@ =~= seq!['0', '0']);
        assert("0"@ =~= seq!['0']);
        assert("-"@ =~= seq!['-']);
        assert(" "@ =~= seq![' ']);
        assert(":"@ =~= seq![':']);
    }
    let days = seconds / 86400;
    let rest = seconds % 86400;
    let shifted = days + 719468;
    let era = shifted / 146097;
    let day_of_era = shifted - era * 146097;
    proof {
        lemma_day_of_year(day_of_era as int);
        law_date_of_days(days as nat);
    }
    let year_of_era = (day_of_era - day_of_era / 1460 + day_of_era / 36524 - day_of_era / 146096)
        / 365;
    let day_of_year = day_of_era - (365 * year_of_era + year_of_era / 4 - year_of_era / 100);
    let months = (5 * day_of_year + 2) / 153;
    let day = day_of_year - (153 * months + 2) / 5 + 1;
    let month = if months < 10 {
        months + 3
    } else {
        months - 9
    };
    let year = year_of_era + era * 400 + if month <= 2 {
        1
    } else {
        0
    };
    let ghost date = date_of(days as nat);
    assert(date.year == year && date.month == month && date.day == day);
    let mut text = if year < 10 {
        "000".to_owned()
    } else if year < 100 {
        "00".to_owned()
    } else if year < 1000 {
        "0".to_owned()
    } else {
        String::new()
    };
    text.append(decimal(year).as_str());
    assert(text@ =~= year_text(year as nat));
    text.append("-");
    text.append(two(month).as_str());
    text.append("-");
    text.append(two(day).as_str());
    text.append(" ");
    text.append(two(rest / 3600).as_str());
    text.append(":");
    text.append(two(rest % 3600 / 60).as_str());
    text.append(":");
    text.append(two(rest % 60).as_str());
    assert(text@ =~= stamp_text(seconds));
    text
}

/// A text filled up with spaces to `width` characters.
pub fn pad_right(text: &str, width: usize) -> (out: String)
    ensures
        out@ == padded(text@, width as nat),
{
    proof {
        reveal_strlit(" ");
    }
    let mut out = text.to_owned();
    let len = text.unicode_len();
    let mut i: usize = len;
    assert(out@ =~= text@ + spaces(0));
    while i < width
        invariant
            len == text@.len(),
            len <= i,
            i <= width || i == len,
            " "@ == seq![' '],
            out@ == text@ + spaces((i - len) as nat),
        decreases width - i,
    {
        out.append(" ");
        assert(out@ =~= text@ + spaces((i + 1 - len) as nat));
        i = i + 1;
    }
    assert(text@ + spaces(0) =~= text@);
    out
}

/// A text with a space in place of every line break.
pub fn flatten(text: &str) -> (out: String)
    ensures
        out@ == flattened(text@),
{
    proof {
        reveal_strlit(" ");
    }
    let v = chars_of(text);
    let n = v.len();
    let mut out = String::new();
    let mut start: usize = 0;
    let mut i: usize = 0;
    assert(out@ =~= flattened(v@.take(0)));
    while i < n
        invariant
            n == v.len(),
            v@ == text@,
            start <= i <= n,
            " "@ == seq![' '],
            out@ == flattened(v@.take(start as int)),
            forall|k: int| start <= k < i ==> v@[k] != '\n',
        decreases n - i,
    {
        if v[i] == '\n' {
            let piece = text.substring_char(start, i);
            out.append(piece);
            out.append(" ");
            assert(out@ =~= flattened(v@.take(i + 1)));
            start = i + 1;
        }
        i = i + 1;
    }
    let piece = text.substring_char(start, n);
    out.append(piece);
    assert(out@ =~= flattened(v@));
    out
}

/// The line that stands for a card in its column.
pub fn card_line(card: &Card) -> (text: String)
    ensures
        text@ == card_line_text(card@),
{
    proof {
        reveal_strlit(" ");
    }
    let mut text = decimal(card.id);
    text.append(" ");
    text.append(card.title.as_str());
    assert(text@ =~= card_line_text(card@));
    text
}

/// The width that is left for text inside a frame of `width` columns.
pub open spec fn inner_width(width: u16) -> int {
    if width >= 2 {
        width - 2
    } else {
        0
    }
}

/// The entry of a card in the list of its column: the card's line, broken
/// by `textwrap::fill` to fit a list that is `width` columns wide with its
/// frame.
pub fn card_item(card: &Card, width: u16) -> (text: String)
    ensures
        text@ == textwrap_fill(card_line_text(card@), inner_width(width)),
{
    let line = card_line(card);
    let inner = if width >= 2 {
        width - 2
    } else {
        0
    };
    fill(line.as_str(), inner)
}

/// The body of a card as the detail view shows it: broken into lines by
/// `textwrap::wrap` at `width` columns.
pub fn card_body_lines(card: &Card, width: u16) -> (lines: Vec<String>)
    ensures
        name_views(lines@) == textwrap_wrap(card@.body, width as int),
{
    wrap(card.body.as_str(), width)
}

/// The stamps of a card as the detail view shows them.
pub fn card_stamps(card: &Card) -> (text: String)
    ensures
        text@ == "created "@ + stamp_text(card.inserted_at) + ", updated "@ + stamp_text(
            card.updated_at,
        ),
{
    let mut text = "created ".to_owned();
    text.append(stamp(card.inserted_at).as_str());
    text.append(", updated ");
    text.append(stamp(card.updated_at).as_str());
    text
}

/// The title of the deletion dialog.
pub fn delete_title(card: &Card) -> (text: String)
    ensures
        text@ == "Delete "@ + card@.title,
{
    let mut text = "Delete ".to_owned();
    text.append(card.title.as_str());
    text
}

/// The two answers of the deletion dialog, the highlighted one in brackets.
pub fn confirmation_labels(state: ConfirmationState) -> (labels: (&'static str, &'static str))
    ensures
        labels.0@ == (if state == ConfirmationState::Yes {
            "[ Delete ]"@
        } else {
            "Delete"@
        }),
        labels.1@ == (if state == ConfirmationState::No {
            "[ Cancel ]"@
        } else {
            "Cancel"@
        }),
{
    match state {
        ConfirmationState::Yes => ("[ Delete ]", "Cancel"),
        ConfirmationState::No => ("Delete", "[ Cancel ]"),
    }
}

/// The line that stands for a board in the picker.
pub fn board_line(meta: &BoardMeta) -> (text: String)
    ensures
        text@ == board_line_text(meta@),
{
    let mut text = pad_right(meta.name.as_str(), PICKER_COLUMN);
    text.append(pad_right(stamp(meta.updated_at).as_str(), PICKER_COLUMN).as_str());
    text.append(pad_right(stamp(meta.viewed_at).as_str(), PICKER_COLUMN).as_str());
    text.append(pad_right(stamp(meta.inserted_at).as_str(), PICKER_COLUMN).as_str());
    text
}

/// The keys of a mode and what they do.
pub fn key_hints(mode: Mode) -> (text: &'static str)
    ensures
        text@ == key_hints_text(mode),
{
    match mode {
        Mode::ViewingBoard =>
            "[h,j,k,l/arrows] - move │ [q] - quit │ [enter] - view card │ [m] - move card │ [n] - new card │ [e] - edit card │ [d] - delete card │ [b] - view boards",
        Mode::ViewingCardDetail => "[enter/esc] - close detail view │ [q] - quit",
        Mode::MovingCard =>
            "[h/left] - move card left │ [l/right] - move card right │ [q] - quit │ [m|enter|esc] - close card detail view",
        Mode::ViewingBoards =>
            "[j/down] - down │ [k/up] - up │ [enter] - view board │ [n] - new board │ [e] - edit board │ [q] - quit",
        Mode::ConfirmCardDeletion =>
            "[h/left] - left │ [l/right] - right │ [enter] - confirm selection",
    }
}

/// What the mode line shows.
pub fn mode_line(error: &Option<String>, mode: Mode) -> (text: String)
    ensures
        text@ == mode_line_text(
            match *error {
                Some(e) => Some(e@),
                None => None,
            },
            mode,
        ),
{
    match error {
        Some(e) => {
            let mut text = " - Error: ".to_owned();
            text.append(flatten(e.as_str()).as_str());
            text
        },
        None => key_hints(mode).to_owned(),
    }
}

} // verus!
