use vstd::prelude::*;

use crate::text::{has_prefix, starts_with, trim, trimmed};

verus! {

/// The largest body a `Content-Length` header may announce: 10 MiB.
pub const MAX_CONTENT_LENGTH: usize = 10485760;

/// What a line read from the stdio input asks of the reader.
#[derive(Debug, Clone, PartialEq, Eq)]
pub enum StdioLine {
    /// Nothing but line breaks: read the next line.
    Blank,
    /// A `Content-Length` header within the limit: the header block runs to a blank line, and
    /// a JSON body of that many bytes follows.
    ContentLength(usize),
    /// A `Content-Length` header over the limit: it is reported and reading goes on.
    TooLong(usize),
    /// A `Content-Length` header whose value is not a length; the value, trimmed, is given.
    BadLength(String),
    /// A request on one line: the line without its line breaks.
    Request(String),
}

/// A line without the carriage returns and line feeds at its end.
pub open spec fn without_line_breaks(s: Seq<char>) -> Seq<char>
    decreases s.len(),
{
    if s.len() > 0 && (s.last() == '\r' || s.last() == '\n') {
        without_line_breaks(s.drop_last())
    } else {
        s
    }
}

/// An ASCII digit.
pub open spec fn is_digit(c: char) -> bool {
    48 <= (c as u32) <= 57
}

/// The value of a run of ASCII digits.
pub open spec fn digits_value(d: Seq<char>) -> nat
    decreases d.len(),
{
    if d.len() == 0 {
        0
    } else {
        digits_value(d.drop_last()) * 10 + ((d.last() as u32) - 48) as nat
    }
}

/// The digits of a length: the text without one leading `+`.
pub open spec fn length_digits(s: Seq<char>) -> Seq<char> {
    if s.len() > 0 && s[0] == '+' {
        s.drop_first()
    } else {
        s
    }
}

/// The length that `usize::from_str` reads from a text: an optional `+` and at least one
/// digit, of a value that fits in a `usize`.
pub open spec fn parsed_length(s: Seq<char>) -> Option<nat> {
    let d = length_digits(s);
    if d.len() > 0 && (forall|i: int| 0 <= i < d.len() ==> is_digit(#[trigger] d[i]))
        && digits_value(d) <= usize::MAX {
        Some(digits_value(d))
    } else {
        None
    }
}

/// How a line is read: blank, a `Content-Length` header (within the limit, over it, or with a
/// value that is no length), or a request on one line.
pub open spec fn stdio_line_is(line: Seq<char>, r: StdioLine) -> bool {
    let t = without_line_breaks(line);
    let header = "Content-Length:"@;
    let value = trimmed(t.skip(header.len() as int));
    if t.len() == 0 {
        r is Blank
    } else if has_prefix(t, header) {
        match parsed_length(value) {
            Some(n) => if n <= MAX_CONTENT_LENGTH {
                r == StdioLine::ContentLength(n as usize)
            } else {
                r == StdioLine::TooLong(n as usize)
            },
            None => r matches StdioLine::BadLength(v) && v@ == value,
        }
    } else {
        r matches StdioLine::Request(x) && x@ == t
    }
}

proof fn lemma_digits_value_grows(d: Seq<char>, k: int)
    requires
        0 <= k <= d.len(),
    ensures
        digits_value(d.take(k)) <= digits_value(d),
    decreases d.len() - k,
{
    if k < d.len() {
        lemma_digits_value_grows(d, k + 1);
        assert(d.take(k + 1).drop_last() =~= d.take(k));
    } else {
        assert(d.take(k) =~= d);
    }
}

/// The length a header value announces, as `usize::from_str` reads it.
fn parse_length(s: &str) -> (r: Option<usize>)
    ensures
        match parsed_length(s@) {
            Some(n) => r == Some(n as usize),
            None => r is None,
        },
{
    let n = s.unicode_len();
    let mut i: usize = 0;
    if n > 0 && s.get_char(0) == '+' {
        i = 1;
    }
    let ghost d = length_digits(s@);
    proof {
        assert(d =~= s@.skip(i as int));
    }
    if i == n {
        return None;
    }
    let start = i;
    let mut acc: usize = 0;
    while i < n
        invariant
            n == s@.len(),
            start <= i <= n,
            start < n,
            d =~= s@.skip(start as int),
            d == length_digits(s@),
            forall|j: int| 0 <= j < i - start ==> is_digit(#[trigger] d[j]),
            acc == digits_value(d.take(i - start)),
        decreases n - i,
    {
        let c = s.get_char(i);
        proof {
            assert(d[i - start] == c);
        }
        let code = c as u32;
        if code < 48 || code > 57 {
            proof {
                assert(!is_digit(d[i - start]));
            }
            return None;
        }
        proof {
            assert(d.take(i - start + 1).drop_last() =~= d.take(i - start));
            assert(d.take(i - start + 1).last() == c);
        }
        let digit = (code - 48) as usize;
        match acc.checked_mul(10) {
            Some(m) => match m.checked_add(digit) {
                Some(v) => {
                    acc = v;
                },
                None => {
                    proof {
                        lemma_digits_value_grows(d, i - start + 1);
                        assert(digits_value(d.take(i - start + 1)) == acc * 10 + digit);
                    }
                    return None;
                },
            },
            None => {
                proof {
                    lemma_digits_value_grows(d, i - start + 1);
                    assert(digits_value(d.take(i - start + 1)) == acc * 10 + digit);
                    assert(acc * 10 + digit >= acc * 10);
                }
                return None;
            },
        }
        i += 1;
    }
    proof {
        assert(d.take(n - start) =~= d);
    }
    Some(acc)
}

/// The line without the carriage returns and line feeds at its end.
fn strip_line_breaks(line: &str) -> (r: &str)
    ensures
        r@ == without_line_breaks(line@),
{
    let mut n = line.unicode_len();
    proof {
        assert(line@.take(n as int) =~= line@);
    }
    while n > 0 && (line.get_char(n - 1) == '\r' || line.get_char(n - 1) == '\n')
        invariant
            n <= line@.len(),
            without_line_breaks(line@.take(n as int)) == without_line_breaks(line@),
        decreases n,
    {
        proof {
            assert(line@.take(n as int).drop_last() =~= line@.take(n - 1));
        }
        n -= 1;
    }
    line.substring_char(0, n)
}

/// Reads one line of the stdio input: blank, a `Content-Length` header, or a request.
pub fn classify_stdio_line(line: &str) -> (r: StdioLine)
    ensures
        stdio_line_is(line@, r),
{
    let t = strip_line_breaks(line);
    proof {
        reveal_strlit("Content-Length:");
    }
    if t.unicode_len() == 0 {
        return StdioLine::Blank;
    }
    let header = "Content-Length:";
    if starts_with(t, header) {
        let m = header.unicode_len();
        let value = trim(t.substring_char(m, t.unicode_len()));
        proof {
            assert(t@.subrange(m as int, t@.len() as int) =~= t@.skip(m as int));
        }
        match parse_length(value.as_str()) {
            Some(n) => if n <= MAX_CONTENT_LENGTH {
                StdioLine::ContentLength(n)
            } else {
                StdioLine::TooLong(n)
            },
            None => StdioLine::BadLength(value),
        }
    } else {
        StdioLine::Request(t.to_owned())
    }
}

} // verus!
