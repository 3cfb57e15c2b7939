//! Writing a text as a JSON string literal.

use crate::text::{chars_of, push_char};
use vstd::prelude::*;

verus! {

/// One of the sixteen hexadecimal digits, in lower case.
pub open spec fn hex_digit(d: nat) -> char
    recommends
        d < 16,
{
    if d < 10 {
        ((48 + d) as u8) as char
    } else {
        ((87 + d) as u8) as char
    }
}

/// One character as it stands inside a JSON string literal: the quote and the
/// backslash take a backslash before them; backspace, tab, line feed, form
/// feed and carriage return are written `\b`, `\t`, `\n`, `\f`, `\r`;
/// every other character below the space is written `\u00` and its two
/// hexadecimal digits; all others stand for themselves.
pub open spec fn json_escaped_char(c: char) -> Seq<char> {
    let u = c as u32;
    if c == '"' {
        seq!['\\', '"']
    } else if c == '\\' {
        seq!['\\', '\\']
    } else if u == 8 {
        seq!['\\', 'b']
    } else if u == 9 {
        seq!['\\', 't']
    } else if u == 10 {
        seq!['\\', 'n']
    } else if u == 12 {
        seq!['\\', 'f']
    } else if u == 13 {
        seq!['\\', 'r']
    } else if u < 32 {
        seq!['\\', 'u', '0', '0', hex_digit((u / 16) as nat), hex_digit((u % 16) as nat)]
    } else {
        seq![c]
    }
}

/// A text as it stands inside a JSON string literal.
pub open spec fn json_escaped(s: Seq<char>) -> Seq<char>
    decreases s.len(),
{
    if s.len() == 0 {
        Seq::empty()
    } else {
        json_escaped(s.drop_last()) + json_escaped_char(s.last())
    }
}

/// A string as a JSON string literal: its escaped text between quotes.
pub open spec fn json_quoted(s: Seq<char>) -> Seq<char> {
    seq!['"'] + json_escaped(s) + seq!['"']
}

fn hex_digit_of(d: u32) -> (c: char)
    requires
        d < 16,
    ensures
        c == hex_digit(d as nat),
{
    let b: u8 = d as u8;
    if d < 10 {
        (48 + b) as char
    } else {
        (87 + b) as char
    }
}

fn push_pair(out: &mut String, first: char, second: char)
    ensures
        final(out)@ == old(out)@ + seq![first, second],
{
    push_char(out, first);
    push_char(out, second);
    assert(out@ =~= old(out)@ + seq![first, second]);
}

fn push_json_escaped_char(out: &mut String, c: char)
    ensures
        final(out)@ == old(out)@ + json_escaped_char(c),
{
    let u: u32 = c as u32;
    if c == '"' {
        push_pair(out, '\\', '"');
    } else if c == '\\' {
        push_pair(out, '\\', '\\');
    } else if u == 8 {
        push_pair(out, '\\', 'b');
    } else if u == 9 {
        push_pair(out, '\\', 't');
    } else if u == 10 {
        push_pair(out, '\\', 'n');
    } else if u == 12 {
        push_pair(out, '\\', 'f');
    } else if u == 13 {
        push_pair(out, '\\', 'r');
    } else if u < 32 {
        let high = hex_digit_of(u / 16);
        let low = hex_digit_of(u % 16);
        push_pair(out, '\\', 'u');
        push_pair(out, '0', '0');
        push_pair(out, high, low);
        assert(out@ =~= old(out)@ + seq!['\\', 'u', '0', '0', high, low]);
    } else {
        push_char(out, c);
        assert(out@ =~= old(out)@ + seq![c]);
    }
}

/// Writes a string as a JSON string literal, quotes and escapes included.
pub fn json_quote(s: &str) -> (r: String)
    ensures
        r@ == json_quoted(s@),
{
    let chars = chars_of(s);
    let mut r = String::new();
    push_char(&mut r, '"');
    let ghost head = seq!['"'];
    let mut i: usize = 0;
    assert(chars@.take(0) =~= Seq::<char>::empty());
    assert(r@ =~= head + json_escaped(chars@.take(0)));
    while i < chars.len()
        invariant
            i <= chars.len(),
            chars@ == s@,
            head == seq!['"'],
            r@ == head + json_escaped(chars@.take(i as int)),
        decreases chars.len() - i,
    {
        let c = chars[i];
        push_json_escaped_char(&mut r, c);
        proof {
            let next = chars@.take(i + 1);
            assert(next.drop_last() =~= chars@.take(i as int));
            assert(next.last() == c);
            assert(head + json_escaped(next) =~= (head + json_escaped(chars@.take(i as int)))
                + json_escaped_char(c));
        }
        i = i + 1;
    }
    assert(chars@.take(i as int) =~= chars@);
    push_char(&mut r, '"');
    assert(r@ =~= json_quoted(s@));
    r
}

} // verus!
