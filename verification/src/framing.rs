//! The wire framing: a `Content-Length` header, a blank line, and a body of
//! exactly that many bytes.

use crate::text::{
    all_digits, ascii_lower, char_ascii_lower, char_is_digit, chars_of, decimal, digits_value,
    find, find_from, is_digit, lemma_digits_value_prefix, slice_chars, trim_bounds, trimmed,
};
use vstd::prelude::*;

verus! {

/// Why a frame could not be read or written.
#[derive(Clone, Copy, Debug, PartialEq, Eq, Structural)]
pub enum TransportError {
    /// The stream failed or ended before the frame was complete.
    Io,
    /// The header holds no usable `Content-Length` field.
    Malformed,
}

/// The position of the first line feed at or after `from`, or the length of
/// `s` where there is none.
pub open spec fn line_end(s: Seq<char>, from: int) -> int
    decreases s.len() - from,
{
    if from >= s.len() {
        s.len() as int
    } else if s[from] == '\n' {
        from
    } else {
        line_end(s, from + 1)
    }
}

/// The end of a line lies between its start and the end of the text, holds
/// a line feed where it lies inside the text, and no line feed stands before
/// it.
pub proof fn lemma_line_end_bounds(s: Seq<char>, from: int)
    requires
        0 <= from <= s.len(),
    ensures
        from <= line_end(s, from) <= s.len(),
        line_end(s, from) < s.len() ==> s[line_end(s, from)] == '\n',
        forall|k: int| from <= k < line_end(s, from) ==> #[trigger] s[k] != '\n',
    decreases s.len() - from,
{
    if from < s.len() && s[from] != '\n' {
        lemma_line_end_bounds(s, from + 1);
    }
}

/// Where the content of the line that starts at `from` stops: at its line
/// feed, or one earlier where a carriage return stands before that line feed.
pub open spec fn line_stop(s: Seq<char>, from: int) -> int {
    let e = line_end(s, from);
    if e < s.len() && from < e && s[e - 1] == '\r' {
        e - 1
    } else {
        e
    }
}

/// The field name that is looked for, in lower case and with its colon.
pub open spec fn length_field_name() -> Seq<char> {
    "content-length:"@
}

/// Whether a header line begins with the field name, in any mix of cases.
pub open spec fn is_length_line(line: Seq<char>) -> bool {
    let name = length_field_name();
    &&& line.len() >= name.len()
    &&& forall|i: int| 0 <= i < name.len() ==> ascii_lower(#[trigger] line[i]) == name[i]
}

/// The value of a length line: what stands between the field name's colon and
/// the next colon (or the end of the line), without surrounding whitespace.
pub open spec fn length_field(line: Seq<char>) -> Seq<char> {
    let start = length_field_name().len() as int;
    let stop = find_from(line, start, seq![':']);
    trimmed(line.subrange(start, stop))
}

/// The number that an unsigned decimal numeral denotes: an optional `+`, then
/// one digit or more. `None` for anything else.
pub open spec fn parse_unsigned(t: Seq<char>) -> Option<nat> {
    let d = if t.len() > 0 && t[0] == '+' {
        t.skip(1)
    } else {
        t
    };
    if d.len() > 0 && all_digits(d) {
        Some(digits_value(d))
    } else {
        None
    }
}

/// The content length that the lines of `s` from position `from` on announce.
/// The first length line decides: its value is the result, or the header is
/// malformed where that value is no number that fits a `usize`.
pub open spec fn header_length(s: Seq<char>, from: int) -> Result<usize, TransportError>
    decreases s.len() - from,
{
    if from < 0 || from >= s.len() {
        Err(TransportError::Malformed)
    } else {
        let line = s.subrange(from, line_stop(s, from));
        if is_length_line(line) {
            match parse_unsigned(length_field(line)) {
                Some(n) => if n <= usize::MAX {
                    Ok(n as usize)
                } else {
                    Err(TransportError::Malformed)
                },
                None => Err(TransportError::Malformed),
            }
        } else if line_end(s, from) >= s.len() {
            Err(TransportError::Malformed)
        } else {
            proof {
                lemma_line_end_bounds(s, from);
            }
            header_length(s, line_end(s, from) + 1)
        }
    }
}

/// The content length that a header announces.
pub open spec fn content_length(header: Seq<char>) -> Result<usize, TransportError> {
    header_length(header, 0)
}

/// Finds the line feed that ends the line starting at `from`.
pub fn find_line_end(s: &Vec<char>, from: usize) -> (e: usize)
    requires
        from <= s.len(),
    ensures
        e == line_end(s@, from as int),
        from <= e <= s.len(),
{
    let mut i: usize = from;
    while i < s.len()
        invariant
            from <= i <= s.len(),
            line_end(s@, from as int) == line_end(s@, i as int),
        decreases s.len() - i,
    {
        if s[i] == '\n' {
            return i;
        }
        i = i + 1;
    }
    i
}

fn line_is_length_line(line: &Vec<char>, name: &Vec<char>) -> (b: bool)
    requires
        name@ == length_field_name(),
    ensures
        b == is_length_line(line@),
{
    if line.len() < name.len() {
        return false;
    }
    let mut i: usize = 0;
    while i < name.len()
        invariant
            i <= name.len() <= line.len(),
            name@ == length_field_name(),
            forall|j: int| 0 <= j < i ==> ascii_lower(#[trigger] line@[j]) == name@[j],
        decreases name.len() - i,
    {
        if char_ascii_lower(line[i]) != name[i] {
            return false;
        }
        i = i + 1;
    }
    true
}

/// Reads an unsigned decimal numeral as the standard library's `parse` reads
/// one for `usize`.
pub fn parse_usize(t: &Vec<char>) -> (r: Option<usize>)
    ensures
        r == match parse_unsigned(t@) {
            Some(n) => if n <= usize::MAX {
                Some(n as usize)
            } else {
                None
            },
            None => None,
        },
{
    let start: usize = if t.len() > 0 && t[0] == '+' {
        1
    } else {
        0
    };
    let ghost d = t@.subrange(start as int, t.len() as int);
    assert(d =~= if t@.len() > 0 && t@[0] == '+' {
        t@.skip(1)
    } else {
        t@
    });
    if start == t.len() {
        return None;
    }
    let mut acc: usize = 0;
    let mut i: usize = start;
    while i < t.len()
        invariant
            start <= i <= t.len(),
            d == t@.subrange(start as int, t.len() as int),
            d.len() > 0,
            d == (if t@.len() > 0 && t@[0] == '+' {
                t@.skip(1)
            } else {
                t@
            }),
            all_digits(d.take(i - start)),
            acc == digits_value(d.take(i - start)),
        decreases t.len() - i,
    {
        let c = t[i];
        assert(c == d[i - start]);
        if !char_is_digit(c) {
            assert(!is_digit(d[i - start]));
            return None;
        }
        let v: usize = (c as u32 - 48) as usize;
        proof {
            let next = d.take(i - start + 1);
            assert(next.drop_last() =~= d.take(i - start));
            assert(next.last() == c);
            assert(digits_value(next) == acc * 10 + v);
            assert forall|j: int| 0 <= j < next.len() implies is_digit(#[trigger] next[j]) by {
                if j < next.len() - 1 {
                    assert(next[j] == d.take(i - start)[j]);
                }
            }
            lemma_digits_value_prefix(d, i - start + 1);
        }
        if acc > (usize::MAX - v) / 10 {
            proof {
                assert(acc * 10 + v > usize::MAX);
                assert(digits_value(d) > usize::MAX);
            }
            // The numeral is too large whatever follows; what follows only
            // decides between "too large" and "no numeral", which are one.
            return None;
        }
        acc = acc * 10 + v;
        i = i + 1;
    }
    assert(d.take(i - start) =~= d);
    Some(acc)
}

/// Extracts the content length from the text of a header, looking for the
/// field without regard to case.
pub fn get_content_length_from(header: &str) -> (r: Result<usize, TransportError>)
    ensures
        r == content_length(header@),
{
    let s = chars_of(header);
    let name = chars_of("content-length:");
    let colon: Vec<char> = vec![':'];
    assert(colon@ =~= seq![':']);
    let mut from: usize = 0;
    while from < s.len()
        invariant
            from <= s.len(),
            s@ == header@,
            name@ == length_field_name(),
            colon@ == seq![':'],
            header_length(s@, 0) == header_length(s@, from as int),
        decreases s.len() - from,
    {
        let e = find_line_end(&s, from);
        let stop = if e < s.len() && from < e && s[e - 1] == '\r' {
            e - 1
        } else {
            e
        };
        let line = slice_chars(&s, from, stop);
        if line_is_length_line(&line, &name) {
            let start = name.len();
            let end = find(&line, start, &colon);
            let field = slice_chars(&line, start, end);
            let (a, b) = trim_bounds(&field);
            let value = slice_chars(&field, a, b);
            return match parse_usize(&value) {
                Some(n) => Ok(n),
                None => Err(TransportError::Malformed),
            };
        }
        if e == s.len() {
            return Err(TransportError::Malformed);
        }
        from = e + 1;
    }
    Err(TransportError::Malformed)
}

} // verus!
