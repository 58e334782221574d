//! Framing: one line per `\n`-terminated run of bytes.

use crate::buffer::{as_slice, contents, extend, split_to};
use bytes::BytesMut;
use vstd::prelude::*;
use vstd::utf8::{
    char_u32_cast, decode_utf8, encode_scalar, encode_utf8, encode_utf8_decode_utf8,
    encode_utf8_valid_utf8, valid_utf8,
};

verus! {

/// The delimiter that ends a line on the wire.
pub const NEWLINE: u8 = 10;

/// Why a frame could not be turned into a line.
#[derive(Debug, Clone, Copy, PartialEq, Eq, Structural)]
pub enum FormatError {
    /// The bytes before the delimiter are not UTF-8.
    InvalidUtf8,
}

impl FormatError {
    /// A short description of the error.
    pub fn message(&self) -> (text: String)
        ensures
            text@ == "invalid UTF-8"@,
    {
        "invalid UTF-8".to_owned()
    }
}

/// `i` is the place of the first delimiter in `buf`.
pub open spec fn ends_line_at(buf: Seq<u8>, i: int) -> bool {
    &&& 0 <= i < buf.len()
    &&& buf[i] == NEWLINE
    &&& forall|j: int| 0 <= j < i ==> buf[j] != NEWLINE
}

/// The place of the first delimiter in `buf`, if it holds one.
pub open spec fn line_end(buf: Seq<u8>) -> Option<int> {
    if exists|i: int| ends_line_at(buf, i) {
        Some(choose|i: int| ends_line_at(buf, i))
    } else {
        None
    }
}

/// What decoding yields on a buffer that holds `buf`: no line yet, the text
/// of the first line, or an error where that line is not UTF-8.
pub open spec fn decoded(buf: Seq<u8>) -> Result<Option<Seq<char>>, FormatError> {
    match line_end(buf) {
        None => Ok(None),
        Some(i) => if valid_utf8(buf.take(i)) {
            Ok(Some(decode_utf8(buf.take(i))))
        } else {
            Err(FormatError::InvalidUtf8)
        },
    }
}

/// What decoding leaves in a buffer that held `buf`: everything where no
/// line is complete, else what follows the first delimiter.
pub open spec fn remainder(buf: Seq<u8>) -> Seq<u8> {
    match line_end(buf) {
        None => buf,
        Some(i) => buf.skip(i + 1),
    }
}

/// The bytes that encoding appends for `line`.
pub open spec fn encoded(line: Seq<char>) -> Seq<u8> {
    encode_utf8(line).push(NEWLINE)
}

/// The first delimiter of a buffer is where `ends_line_at` holds.
pub proof fn lemma_line_end_is(buf: Seq<u8>, i: int)
    requires
        ends_line_at(buf, i),
    ensures
        line_end(buf) == Some(i),
{
    let k = choose|k: int| ends_line_at(buf, k);
    assert(ends_line_at(buf, k));
    if k < i {
        assert(buf[k] != NEWLINE);
    } else if i < k {
        assert(buf[i] != NEWLINE);
    }
}

/// No byte of `bytes` is the delimiter.
pub open spec fn no_newline(bytes: Seq<u8>) -> bool {
    forall|i: int| 0 <= i < bytes.len() ==> bytes[i] != NEWLINE
}

/// `std::str::from_utf8`: the text is returned exactly where the bytes are
/// valid UTF-8, and those bytes are its encoding.
#[verifier::external_body]
pub(crate) fn from_utf8(bytes: &[u8]) -> (text: Option<&str>)
    ensures
        text is Some <==> valid_utf8(bytes@),
        text matches Some(s) ==> encode_utf8(s@) == bytes@,
{
    match std::str::from_utf8(bytes) {
        Ok(s) => Some(s),
        Err(_) => None,
    }
}

/// Finds the first delimiter in `bytes`.
pub fn find_newline(bytes: &[u8]) -> (pos: Option<usize>)
    ensures
        match pos {
            Some(i) => line_end(bytes@) == Some(i as int),
            None => line_end(bytes@) is None,
        },
{
    let mut i: usize = 0;
    while i < bytes.len()
        invariant
            i <= bytes.len(),
            forall|j: int| 0 <= j < i ==> bytes@[j] != NEWLINE,
        decreases bytes.len() - i,
    {
        if bytes[i] == NEWLINE {
            proof {
                lemma_line_end_is(bytes@, i as int);
            }
            return Some(i);
        }
        i += 1;
    }
    None
}

/// The codec of the line protocol. It keeps no state between calls.
pub struct LineCodec;

impl LineCodec {
    /// Takes the first complete line out of `src`, delimiter included, and
    /// returns its text. Where no delimiter has arrived yet, `src` is left
    /// as it is. A line that is not UTF-8 is consumed and reported.
    pub fn decode(&mut self, src: &mut BytesMut) -> (res: Result<Option<String>, FormatError>)
        ensures
            contents(*final(src)) == remainder(contents(*old(src))),
            match decoded(contents(*old(src))) {
                Ok(Some(line)) => res matches Ok(Some(s)) && s@ == line,
                Ok(None) => res == Ok::<Option<String>, FormatError>(None),
                Err(e) => res == Err::<Option<String>, FormatError>(e),
            },
    {
        match find_newline(as_slice(src)) {
            None => Ok(None),
            Some(i) => {
                let line = split_to(src, i);
                let _ = split_to(src, 1);
                assert(contents(*src) =~= contents(*old(src)).skip(i + 1));
                match from_utf8(as_slice(&line)) {
                    Some(s) => {
                        proof {
                            encode_utf8_decode_utf8(s@);
                        }
                        Ok(Some(s.to_owned()))
                    },
                    None => Err(FormatError::InvalidUtf8),
                }
            },
        }
    }

    /// Appends `item` and one delimiter to `dst`. This never fails.
    pub fn encode(&mut self, item: String, dst: &mut BytesMut) -> (res: Result<(), FormatError>)
        ensures
            res is Ok,
            contents(*final(dst)) == contents(*old(dst)) + encoded(item@),
    {
        extend(dst, item.as_str().as_bytes());
        let delimiter: [u8; 1] = [NEWLINE];
        extend(dst, delimiter.as_slice());
        assert(contents(*dst) =~= contents(*old(dst)) + encoded(item@));
        Ok(())
    }
}

/// A buffer without a delimiter holds no line.
pub proof fn lemma_no_newline_no_line(buf: Seq<u8>)
    requires
        no_newline(buf),
    ensures
        line_end(buf) is None,
{
    if exists|i: int| ends_line_at(buf, i) {
        let i = choose|i: int| ends_line_at(buf, i);
        assert(buf[i] == NEWLINE);
    }
}

/// Decoding a buffer that holds no delimiter yields no line and leaves the
/// buffer byte for byte as it was.
pub proof fn lemma_incomplete_keeps_buffer(buf: Seq<u8>)
    requires
        no_newline(buf),
    ensures
        decoded(buf) == Ok::<Option<Seq<char>>, FormatError>(None),
        remainder(buf) == buf,
{
    lemma_no_newline_no_line(buf);
}

/// In a buffer that holds `head`, a delimiter and `tail`, where `head` has no
/// delimiter of its own, the first line ends right after `head`.
pub proof fn lemma_line_end_after_head(head: Seq<u8>, tail: Seq<u8>)
    requires
        no_newline(head),
    ensures
        line_end(head.push(NEWLINE) + tail) == Some(head.len() as int),
        (head.push(NEWLINE) + tail).take(head.len() as int) == head,
        (head.push(NEWLINE) + tail).skip(head.len() as int + 1) == tail,
{
    let buf = head.push(NEWLINE) + tail;
    let n = head.len() as int;
    assert(buf[n] == NEWLINE);
    assert forall|j: int| 0 <= j < n implies buf[j] != NEWLINE by {
        assert(buf[j] == head[j]);
    }
    lemma_line_end_is(buf, n);
    assert(buf.take(n) =~= head);
    assert(buf.skip(n + 1) =~= tail);
}

/// Where valid UTF-8 bytes `s` without a delimiter are followed by a
/// delimiter and `tail`, decoding yields the text of `s`, consumes those
/// bytes and the delimiter, and leaves exactly `tail`.
pub proof fn lemma_first_line_decoded(s: Seq<u8>, tail: Seq<u8>)
    requires
        valid_utf8(s),
        no_newline(s),
    ensures
        decoded(s.push(NEWLINE) + tail) == Ok::<Option<Seq<char>>, FormatError>(
            Some(decode_utf8(s)),
        ),
        remainder(s.push(NEWLINE) + tail) == tail,
        remainder(s.push(NEWLINE) + tail).len() + s.len() + 1 == (s.push(NEWLINE) + tail).len(),
{
    lemma_line_end_after_head(s, tail);
}

/// Where the bytes before the first delimiter are not valid UTF-8, decoding
/// fails, and the malformed line and its delimiter are still consumed.
pub proof fn lemma_malformed_line_rejected(s: Seq<u8>, tail: Seq<u8>)
    requires
        !valid_utf8(s),
        no_newline(s),
    ensures
        decoded(s.push(NEWLINE) + tail) == Err::<Option<Seq<char>>, FormatError>(
            FormatError::InvalidUtf8,
        ),
        remainder(s.push(NEWLINE) + tail) == tail,
{
    lemma_line_end_after_head(s, tail);
}

/// The encoding of a character other than `'\n'` holds no delimiter byte.
pub proof fn lemma_char_without_newline(c: char)
    requires
        c != '\n',
    ensures
        no_newline(encode_scalar(c as u32)),
{
    let v = c as u32;
    char_u32_cast(c, v);
    assert(v != 10);
    assert(v <= 0x7F && v != 10 ==> ((v & 0x7F) as u8) != 10u8) by (bit_vector);
    assert(forall|x: u8| (0x80u8 | x) != 10u8) by (bit_vector);
    assert(forall|x: u8| (0xC0u8 | x) != 10u8) by (bit_vector);
    assert(forall|x: u8| (0xE0u8 | x) != 10u8) by (bit_vector);
    assert(forall|x: u8| (0xF0u8 | x) != 10u8) by (bit_vector);
}

/// The encoding of a text without `'\n'` holds no delimiter byte.
pub proof fn lemma_text_without_newline(line: Seq<char>)
    requires
        !line.contains('\n'),
    ensures
        no_newline(encode_utf8(line)),
    decreases line.len(),
{
    if line.len() > 0 {
        let rest = line.drop_first();
        assert(line[0] != '\n');
        assert forall|i: int| 0 <= i < rest.len() implies rest[i] != '\n' by {
            assert(rest[i] == line[i + 1]);
        }
        lemma_char_without_newline(line[0]);
        lemma_text_without_newline(rest);
    }
}

/// Round trip: what encoding appends for a line without `'\n'` decodes to
/// that same line, and whatever followed it stays in the buffer.
pub proof fn lemma_encode_then_decode(line: Seq<char>, tail: Seq<u8>)
    requires
        !line.contains('\n'),
    ensures
        decoded(encoded(line) + tail) == Ok::<Option<Seq<char>>, FormatError>(Some(line)),
        remainder(encoded(line) + tail) == tail,
{
    lemma_text_without_newline(line);
    encode_utf8_valid_utf8(line);
    encode_utf8_decode_utf8(line);
    lemma_first_line_decoded(encode_utf8(line), tail);
}

} // verus!
