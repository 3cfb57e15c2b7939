//! Encoding a body into a frame and taking one frame off the front of a byte
//! stream, with the law that the second undoes the first.

use crate::framing::{
    content_length, get_content_length_from, is_length_line, length_field, length_field_name,
    lemma_line_end_bounds, line_end, line_stop, parse_unsigned, TransportError,
};
use crate::text::{
    ascii_lower, decimal, find_from, is_digit, is_whitespace, lemma_decimal_round_trip,
    lemma_find_from_bounds, lemma_skip_whitespace_bounds, push_decimal, skip_whitespace, trim_end,
    trimmed,
};
use vstd::prelude::*;
use vstd::slice::{slice_subrange, slice_to_vec};
use vstd::utf8::{
    decode_utf8, encode_utf8, encode_utf8_decode_utf8, encode_utf8_valid_utf8, is_ascii_chars,
    is_ascii_chars_encode_utf8, valid_utf8,
};

verus! {

/// Whether the bytes read so far end with the blank line that closes a header:
/// carriage return, line feed, carriage return, line feed.
pub open spec fn ends_header(b: Seq<u8>) -> bool {
    &&& b.len() >= 4
    &&& b[b.len() - 4] == 13
    &&& b[b.len() - 3] == 10
    &&& b[b.len() - 2] == 13
    &&& b[b.len() - 1] == 10
}

/// The length of the shortest prefix of `input`, at least `from` bytes long,
/// that ends a header; `None` where no prefix does.
pub open spec fn header_end(input: Seq<u8>, from: int) -> Option<int>
    decreases input.len() - from,
{
    if from < 0 || from > input.len() {
        None
    } else if ends_header(input.take(from)) {
        Some(from)
    } else if from == input.len() {
        None
    } else {
        header_end(input, from + 1)
    }
}

/// What a complete header announces: it has to be UTF-8 and to hold a usable
/// length field.
pub open spec fn header_result(header: Seq<u8>) -> Result<usize, TransportError> {
    if valid_utf8(header) {
        content_length(decode_utf8(header))
    } else {
        Err(TransportError::Malformed)
    }
}

/// The first frame of a byte stream: its body, and how many bytes the frame
/// takes. A stream that ends inside the header or the body is an I/O failure.
pub open spec fn decoded(input: Seq<u8>) -> Result<(Seq<u8>, int), TransportError> {
    match header_end(input, 0) {
        None => Err(TransportError::Io),
        Some(h) => match header_result(input.take(h)) {
            Err(e) => Err(e),
            Ok(n) => if input.len() - h < n {
                Err(TransportError::Io)
            } else {
                Ok((input.subrange(h, h + n), h + n))
            },
        },
    }
}

/// The header that announces a body of `n` bytes.
pub open spec fn header_text(n: nat) -> Seq<char> {
    "Content-Length: "@ + decimal(n) + "\r\n\r\n"@
}

/// The frame of a body: its header in UTF-8, then the body itself.
pub open spec fn frame(body: Seq<u8>) -> Seq<u8> {
    encode_utf8(header_text(body.len())) + body
}

/// Decodes bytes as UTF-8 text: `String::from_utf8` of the standard library,
/// which succeeds exactly on well-formed UTF-8 and then holds the characters
/// that the bytes encode.
#[verifier::external_body]
fn text_from_utf8(bytes: Vec<u8>) -> (r: Option<String>)
    ensures
        match r {
            Some(s) => valid_utf8(bytes@) && s@ == decode_utf8(bytes@),
            None => !valid_utf8(bytes@),
        },
{
    String::from_utf8(bytes).ok()
}

/// The text that bytes are in UTF-8; `None` where they are not UTF-8.
pub fn text_of_bytes(bytes: &[u8]) -> (r: Option<String>)
    ensures
        match r {
            Some(s) => valid_utf8(bytes@) && s@ == decode_utf8(bytes@),
            None => !valid_utf8(bytes@),
        },
{
    text_from_utf8(slice_to_vec(bytes))
}

/// Collects a header byte by byte, as a reader has to: the length of the
/// header is known only once its closing blank line has been seen.
pub struct HeaderScanner {
    seen: Vec<u8>,
}

impl View for HeaderScanner {
    type V = Seq<u8>;

    /// The bytes taken so far.
    closed spec fn view(&self) -> Seq<u8> {
        self.seen@
    }
}

impl HeaderScanner {
    /// A scanner that has seen nothing.
    pub fn new() -> (r: Self)
        ensures
            r@ == Seq::<u8>::empty(),
    {
        HeaderScanner { seen: Vec::new() }
    }

    /// Takes the next byte of the stream and says whether the header is now
    /// complete.
    pub fn push(&mut self, byte: u8) -> (done: bool)
        ensures
            final(self)@ == old(self)@.push(byte),
            done == ends_header(final(self)@),
    {
        self.seen.push(byte);
        let n = self.seen.len();
        n >= 4 && self.seen[n - 4] == 13 && self.seen[n - 3] == 10 && self.seen[n - 2] == 13
            && self.seen[n - 1] == 10
    }

    /// The length of the body that the collected header announces.
    pub fn finish(self) -> (r: Result<usize, TransportError>)
        ensures
            r == header_result(self@),
    {
        match text_from_utf8(self.seen) {
            Some(text) => get_content_length_from(text.as_str()),
            None => Err(TransportError::Malformed),
        }
    }
}

/// Frames a body: the header with the body's length, then the body.
pub fn encode_frame(body: &[u8]) -> (out: Vec<u8>)
    ensures
        out@ == frame(body@),
{
    let mut header = String::from_str("Content-Length: ");
    push_decimal(&mut header, body.len() as u64);
    header.append("\r\n\r\n");
    let mut out = header.as_str().as_bytes_vec();
    let ghost head = out@;
    let mut i: usize = 0;
    while i < body.len()
        invariant
            i <= body.len(),
            out@ == head + body@.take(i as int),
        decreases body.len() - i,
    {
        out.push(body[i]);
        i = i + 1;
        assert(head + body@.take(i as int) =~= (head + body@.take(i - 1)).push(body@[i - 1]));
    }
    assert(body@.take(i as int) =~= body@);
    out
}

/// Takes the first frame off `input`: reads header bytes until the blank line,
/// then exactly as many body bytes as the header announces. Returns the body
/// and the number of bytes used.
pub fn decode_frame(input: &[u8]) -> (r: Result<(Vec<u8>, usize), TransportError>)
    ensures
        match r {
            Ok((body, used)) => decoded(input@) == Ok::<(Seq<u8>, int), TransportError>(
                (body@, used as int),
            ),
            Err(e) => decoded(input@) == Err::<(Seq<u8>, int), TransportError>(e),
        },
{
    let mut scanner = HeaderScanner::new();
    let mut i: usize = 0;
    assert(input@.take(0) =~= Seq::<u8>::empty());
    while i < input.len()
        invariant
            i <= input.len(),
            scanner@ == input@.take(i as int),
            !ends_header(input@.take(i as int)),
            header_end(input@, 0) == header_end(input@, i as int),
        decreases input.len() - i,
    {
        let done = scanner.push(input[i]);
        assert(input@.take(i + 1) =~= input@.take(i as int).push(input@[i as int]));
        i = i + 1;
        if done {
            let n = match scanner.finish() {
                Ok(n) => n,
                Err(e) => {
                    return Err(e);
                },
            };
            if input.len() - i < n {
                return Err(TransportError::Io);
            }
            let body = slice_to_vec(slice_subrange(input, i, i + n));
            return Ok((body, i + n));
        }
    }
    Err(TransportError::Io)
}

/// The shape of a header: sixteen characters of field name, the numeral, and
/// the closing blank line; all of it ASCII.
proof fn lemma_header_text_shape(n: nat)
    ensures
        ({
            let h = header_text(n);
            let d = decimal(n);
            let dl = d.len() as int;
            &&& h.len() == 16 + dl + 4
            &&& dl >= 1
            &&& h.subrange(0, 16) == "Content-Length: "@
            &&& forall|j: int| 0 <= j < d.len() ==> h[16 + j] == #[trigger] d[j]
            &&& h[16 + dl] == '\r'
            &&& h[16 + dl + 1] == '\n'
            &&& h[16 + dl + 2] == '\r'
            &&& h[16 + dl + 3] == '\n'
            &&& forall|k: int| 0 <= k < 16 + dl ==> #[trigger] h[k] != '\r' && h[k] != '\n'
            &&& is_ascii_chars(h)
        }),
{
    reveal_strlit("Content-Length: ");
    reveal_strlit("\r\n\r\n");
    lemma_decimal_round_trip(n);
    let h = header_text(n);
    let d = decimal(n);
    let name = "Content-Length: "@;
    assert(h.subrange(0, 16) =~= name);
    assert forall|k: int| 0 <= k < 16 + d.len() implies #[trigger] h[k] != '\r' && h[k] != '\n' by {
        if k < 16 {
            assert(h[k] == name[k]);
        } else {
            assert(h[k] == d[k - 16]);
            assert(is_digit(d[k - 16]));
        }
    }
    assert forall|i: int| 0 <= i < h.len() implies '\0' <= #[trigger] h[i] <= '\u{7f}' by {
        if i < 16 {
            assert(h[i] == name[i]);
        } else if i < 16 + d.len() {
            assert(h[i] == d[i - 16]);
            assert(is_digit(d[i - 16]));
        }
    }
}

/// Scanning stops at the first prefix that ends a header, where there is one.
proof fn lemma_header_end_is(input: Seq<u8>, from: int, h: int)
    requires
        0 <= from <= h <= input.len(),
        ends_header(input.take(h)),
        forall|k: int| from <= k < h ==> !ends_header(#[trigger] input.take(k)),
    ensures
        header_end(input, from) == Some(h),
    decreases h - from,
{
    if from < h {
        lemma_header_end_is(input, from + 1, h);
    }
}

/// A header written by this crate announces the length it was written for.
proof fn lemma_header_text_length(n: nat)
    requires
        n <= usize::MAX,
    ensures
        content_length(header_text(n)) == Ok::<usize, TransportError>(n as usize),
{
    reveal_strlit("Content-Length: ");
    reveal_strlit("content-length:");
    lemma_header_text_shape(n);
    lemma_decimal_round_trip(n);
    let h = header_text(n);
    let d = decimal(n);
    let dl = d.len() as int;
    let e = 16 + dl + 1;
    lemma_line_end_bounds(h, 0);
    assert(line_end(h, 0) == e) by {
        let r = line_end(h, 0);
        if r < e {
            assert(h[r] == '\n');
        }
        if r > e {
            assert(h[e] != '\n');
        }
    }
    assert(line_stop(h, 0) == 16 + dl);
    let line = h.subrange(0, 16 + dl);
    assert(line =~= "Content-Length: "@ + d);
    let name = length_field_name();
    assert(is_length_line(line)) by {
        assert forall|i: int| 0 <= i < name.len() implies ascii_lower(#[trigger] line[i])
            == name[i] by {
            assert(line[i] == "Content-Length: "@[i]);
        }
    }
    let colon = seq![':'];
    lemma_find_from_bounds(line, 15, colon);
    assert(find_from(line, 15, colon) == line.len()) by {
        let r = find_from(line, 15, colon);
        if r < line.len() {
            assert(line.subrange(r, r + 1)[0] == colon[0]);
            assert(line[r] == ':');
            if r >= 16 {
                assert(line[r] == d[r - 16]);
                assert(is_digit(d[r - 16]));
            }
        }
    }
    let field = line.subrange(15, line.len() as int);
    assert(field.len() == 1 + d.len());
    assert(field[0] == ' ');
    assert forall|j: int| 0 <= j < d.len() implies field[1 + j] == #[trigger] d[j] by {
        assert(field[1 + j] == line[16 + j]);
    }
    lemma_skip_whitespace_bounds(field, 0);
    assert(skip_whitespace(field, 0) == 1) by {
        let r = skip_whitespace(field, 0);
        assert(is_whitespace(field[0]));
        assert(field[1] == d[0]);
        assert(is_digit(d[0]));
        if r > 1 {
            assert(is_whitespace(field[1]));
        }
    }
    assert(trim_end(field, 1, field.len() as int) == field.len()) by {
        assert(field[field.len() - 1] == d[d.len() - 1]);
        assert(is_digit(d[d.len() - 1]));
    }
    assert(trimmed(field) =~= d);
    assert(length_field(line) == d);
    assert(d[0] != '+') by {
        assert(is_digit(d[0]));
    }
    assert(parse_unsigned(d) == Some(n));
}

/// Decoding undoes encoding: the first frame of a stream that begins with the
/// frame of `body` is `body`, whatever the body holds and whatever follows.
pub proof fn lemma_frame_round_trip(body: Seq<u8>, rest: Seq<u8>)
    requires
        body.len() <= usize::MAX,
    ensures
        decoded(frame(body) + rest) == Ok::<(Seq<u8>, int), TransportError>(
            (body, frame(body).len() as int),
        ),
{
    let n = body.len();
    let h = header_text(n);
    let hb = encode_utf8(h);
    let d = decimal(n);
    let input = frame(body) + rest;
    lemma_header_text_shape(n);
    is_ascii_chars_encode_utf8(h);
    encode_utf8_valid_utf8(h);
    encode_utf8_decode_utf8(h);
    let hl = hb.len() as int;
    assert(hl == 16 + d.len() + 4);
    assert forall|i: int| 0 <= i < hl implies input[i] == h[i] as u8 by {
        assert(input[i] == hb[i]);
    }
    assert(ends_header(input.take(hl))) by {
        let t = input.take(hl);
        assert(t[hl - 4] == h[hl - 4] as u8);
        assert(t[hl - 3] == h[hl - 3] as u8);
        assert(t[hl - 2] == h[hl - 2] as u8);
        assert(t[hl - 1] == h[hl - 1] as u8);
    }
    assert forall|k: int| 0 <= k < hl implies !ends_header(#[trigger] input.take(k)) by {
        if k >= 4 {
            let t = input.take(k);
            assert(t[k - 4] == h[k - 4] as u8);
            assert(h[k - 4] != '\r');
        }
    }
    lemma_header_end_is(input, 0, hl);
    assert(input.take(hl) =~= hb);
    lemma_header_text_length(n);
    assert(input.subrange(hl, hl + n) =~= body);
}

} // verus!
