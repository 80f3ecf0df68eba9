use vstd::prelude::*;

use crate::error::EmberFlowError;
use crate::text::{cat, cat3};

verus! {

#[verifier::external_type_specification]
#[verifier::external_body]
pub struct ExSqliteError(rusqlite::Error);

/// Text in SQLite's date and time format, `YYYY-MM-DD HH:MM:SS`.
pub open spec fn sqlite_datetime_shape(s: Seq<char>) -> bool {
    &&& s.len() == 19
    &&& forall|i: int|
        0 <= i < 19 ==> if i == 4 || i == 7 {
            #[trigger] s[i] == '-'
        } else if i == 10 {
            s[i] == ' '
        } else if i == 13 || i == 16 {
            s[i] == ':'
        } else {
            '0' <= s[i] && s[i] <= '9'
        }
}

/// SQLite's `datetime('now')`, evaluated on a private in-memory database: the current UTC
/// time. Which time it is depends on the clock, so only the format that SQLite documents for
/// `datetime()`, `YYYY-MM-DD HH:MM:SS`, is claimed of the text it gives.
#[verifier::external_body]
fn sqlite_datetime_now() -> (r: Result<String, rusqlite::Error>)
    ensures
        r matches Ok(s) ==> sqlite_datetime_shape(s@),
{
    let conn = rusqlite::Connection::open_in_memory()?;
    let mut stmt = conn.prepare("SELECT datetime('now')")?;
    let mut rows = stmt.query([])?;
    let row = rows.next()?.ok_or(rusqlite::Error::QueryReturnedNoRows)?;
    let value: String = row.get(0)?;
    Ok(value)
}

/// SQLite's `datetime('now')` and `datetime('now', modifier)`, read in one row of one query on a
/// private in-memory database, where SQLite gives `'now'` the same value in both calls. What is
/// claimed is the format that SQLite documents for `datetime()`, `YYYY-MM-DD HH:MM:SS`, for both
/// texts, and that the `+N seconds` modifier moves the second time N seconds past the first (a
/// time past the year 9999 gives NULL, and so an error here). Which time `'now'` is depends on
/// the clock and is not claimed.
#[verifier::external_body]
fn sqlite_datetime_now_modified(modifier: &str) -> (r: Result<(String, String), rusqlite::Error>)
    requires
        exists|n: nat| modifier@ == "+"@ + #[trigger] decimal(n) + " seconds"@,
    ensures
        r matches Ok(p) ==> sqlite_datetime_shape(p.0@) && sqlite_datetime_shape(p.1@),
        r matches Ok(p) ==> forall|n: nat|
            modifier@ == "+"@ + #[trigger] decimal(n) + " seconds"@ ==> datetime_seconds(p.1@)
                == datetime_seconds(p.0@) + n,
{
    let conn = rusqlite::Connection::open_in_memory()?;
    let mut stmt = conn.prepare("SELECT datetime('now'), datetime('now', ?1)")?;
    let mut rows = stmt.query([modifier])?;
    let row = rows.next()?.ok_or(rusqlite::Error::QueryReturnedNoRows)?;
    let start: String = row.get(0)?;
    let later: String = row.get(1)?;
    Ok((start, later))
}

/// The `Display` text of a rusqlite error. Nothing is claimed of it.
#[verifier::external_body]
fn sqlite_error_text(e: &rusqlite::Error) -> (r: String) {
    e.to_string()
}

/// The current time as SQLite writes it into the store.
pub fn current_timestamp() -> (r: Result<String, EmberFlowError>)
    ensures
        r matches Err(e) ==> e is Sqlite,
        r matches Ok(s) ==> sqlite_datetime_shape(s@),
{
    match sqlite_datetime_now() {
        Ok(s) => Ok(s),
        Err(e) => Err(EmberFlowError::Sqlite(sqlite_error_text(&e))),
    }
}

/// The current time and the time `secs` seconds later, both as SQLite writes them into the
/// store: the second names a moment exactly `secs` seconds after the first.
pub fn timestamps_for_duration(secs: u64) -> (r: Result<(String, String), EmberFlowError>)
    ensures
        r matches Err(e) ==> e is Sqlite,
        r matches Ok(p) ==> sqlite_datetime_shape(p.0@) && sqlite_datetime_shape(p.1@),
        r matches Ok(p) ==> datetime_seconds(p.1@) == datetime_seconds(p.0@) + secs,
{
    let digits = u64_decimal(secs);
    let modifier = cat3("+", digits.as_str(), " seconds");
    proof {
        assert(modifier@ == "+"@ + decimal(secs as nat) + " seconds"@);
    }
    match sqlite_datetime_now_modified(modifier.as_str()) {
        Ok(p) => Ok(p),
        Err(e) => Err(EmberFlowError::Sqlite(sqlite_error_text(&e))),
    }
}

/// The time `secs` seconds from now, as SQLite writes it into the store: a time that lies
/// exactly `secs` seconds after one that the clock gave during the call.
pub fn timestamp_after(secs: u64) -> (r: Result<String, EmberFlowError>)
    ensures
        r matches Err(e) ==> e is Sqlite,
        r matches Ok(s) ==> sqlite_datetime_shape(s@),
        r matches Ok(s) ==> exists|now: Seq<char>|
            sqlite_datetime_shape(now) && datetime_seconds(s@) == datetime_seconds(now) + secs,
{
    match timestamps_for_duration(secs) {
        Ok(p) => Ok(p.1),
        Err(e) => Err(e),
    }
}

/// The value of a decimal digit character.
pub open spec fn digit_value(c: char) -> int {
    if c == '1' {
        1
    } else if c == '2' {
        2
    } else if c == '3' {
        3
    } else if c == '4' {
        4
    } else if c == '5' {
        5
    } else if c == '6' {
        6
    } else if c == '7' {
        7
    } else if c == '8' {
        8
    } else if c == '9' {
        9
    } else {
        0
    }
}

/// The number written by the digits of `s` from `i` to `j`.
pub open spec fn digits_value(s: Seq<char>, i: int, j: int) -> int
    decreases j - i,
{
    if j <= i {
        0
    } else {
        digits_value(s, i, j - 1) * 10 + digit_value(s[j - 1])
    }
}

/// The number of days from 1970-01-01 to the given date of the proleptic Gregorian calendar.
pub open spec fn days_from_civil(year: int, month: int, day: int) -> int {
    let y = if month <= 2 { year - 1 } else { year };
    let era = y / 400;
    let yoe = y - era * 400;
    let mp = if month > 2 { month - 3 } else { month + 9 };
    let doy = (153 * mp + 2) / 5 + day - 1;
    let doe = yoe * 365 + yoe / 4 - yoe / 100 + doy;
    era * 146097 + doe - 719468
}

/// The second that a `YYYY-MM-DD HH:MM:SS` text names, counted from 1970-01-01 00:00:00.
pub open spec fn datetime_seconds(s: Seq<char>) -> int {
    let days = days_from_civil(digits_value(s, 0, 4), digits_value(s, 5, 7), digits_value(s, 8, 10));
    days * 86400 + digits_value(s, 11, 13) * 3600 + digits_value(s, 14, 16) * 60 + digits_value(
        s,
        17,
        19,
    )
}

pub open spec fn digit_char(d: nat) -> char {
    if d == 0 {
        '0'
    } else if d == 1 {
        '1'
    } else if d == 2 {
        '2'
    } else if d == 3 {
        '3'
    } else if d == 4 {
        '4'
    } else if d == 5 {
        '5'
    } else if d == 6 {
        '6'
    } else if d == 7 {
        '7'
    } else if d == 8 {
        '8'
    } else {
        '9'
    }
}

/// The decimal digits of a natural number, without leading zeros.
pub open spec fn decimal(n: nat) -> Seq<char>
    decreases n,
{
    if n < 10 {
        seq![digit_char(n)]
    } else {
        decimal(n / 10) + seq![digit_char(n % 10)]
    }
}

fn digit_text(d: u64) -> (r: &'static str)
    requires
        d < 10,
    ensures
        r@ == seq![digit_char(d as nat)],
{
    proof {
        reveal_strlit("0");
        reveal_strlit("1");
        reveal_strlit("2");
        reveal_strlit("3");
        reveal_strlit("4");
        reveal_strlit("5");
        reveal_strlit("6");
        reveal_strlit("7");
        reveal_strlit("8");
        reveal_strlit("9");
    }
    if d == 0 {
        "0"
    } else if d == 1 {
        "1"
    } else if d == 2 {
        "2"
    } else if d == 3 {
        "3"
    } else if d == 4 {
        "4"
    } else if d == 5 {
        "5"
    } else if d == 6 {
        "6"
    } else if d == 7 {
        "7"
    } else if d == 8 {
        "8"
    } else {
        "9"
    }
}

/// The decimal text of an unsigned number, as `to_string` writes it.
pub fn u64_decimal(n: u64) -> (r: String)
    ensures
        r@ == decimal(n as nat),
    decreases n,
{
    if n < 10 {
        digit_text(n).to_owned()
    } else {
        let head = u64_decimal(n / 10);
        cat(head.as_str(), digit_text(n % 10))
    }
}

} // verus!
