//! The text-encoding decoder: turns a byte run at the front of the cursor,
//! under a declared encoding and a termination mode, into a decoded string.
//!
//! A terminated field ends at the first encoding-appropriate null sentinel:
//! a single zero byte for the one-byte encodings, a code-unit-aligned pair of
//! zero bytes for the UTF-16 encodings — a lone zero byte off the code-unit
//! boundary does not terminate, so legitimate embedded zero bytes survive.
//! An unterminated field, or a terminated one whose sentinel never appears,
//! runs to the end of the buffer.

use vstd::prelude::*;
use vstd::slice::{slice_subrange, slice_to_vec};
use vstd::utf8::{decode_utf8, valid_utf8};

use crate::cursor::Cursor;
use crate::encoding::{Id3v2Error, TextEncoding};

verus! {

/// Width in bytes of one code unit, and so of the null sentinel, under the
/// given encoding.
pub open spec fn term_width(e: TextEncoding) -> int {
    match e {
        TextEncoding::Latin1 => 1,
        TextEncoding::Utf8 => 1,
        TextEncoding::Utf16 => 2,
        TextEncoding::Utf16Be => 2,
    }
}

/// True when a null sentinel of width `w` sits at the very front of `s`.
pub open spec fn sentinel_at_front(s: Seq<u8>, w: int) -> bool {
    if w == 2 {
        s.len() >= 2 && s[0] == 0 && s[1] == 0
    } else {
        s.len() >= 1 && s[0] == 0
    }
}

/// True when `s` holds a null sentinel of width `w` on a code-unit boundary.
pub open spec fn has_terminator(s: Seq<u8>, w: int) -> bool
    decreases s.len(),
    when w == 1 || w == 2
{
    if s.len() < w {
        false
    } else if sentinel_at_front(s, w) {
        true
    } else {
        has_terminator(s.skip(w), w)
    }
}

/// Byte offset of the first aligned null sentinel of width `w` in `s`, or
/// `s.len()` when there is none.
pub open spec fn terminator_start(s: Seq<u8>, w: int) -> int
    decreases s.len(),
    when w == 1 || w == 2
{
    if s.len() < w {
        s.len() as int
    } else if sentinel_at_front(s, w) {
        0
    } else {
        w + terminator_start(s.skip(w), w)
    }
}

/// True when the byte run ends in a code-unit-aligned null sentinel of
/// width `w`.
pub open spec fn ends_with_sentinel(s: Seq<u8>, w: int) -> bool {
    if w == 2 {
        s.len() >= 2 && s.len() % 2 == 0 && s[s.len() - 2] == 0 && s[s.len() - 1] == 0
    } else {
        s.len() >= 1 && s[s.len() - 1] == 0
    }
}

/// How many bytes belong to the text itself: everything before the first
/// sentinel in a terminated field; in a to-end field the whole run, bar one
/// sentinel that ends it.
pub open spec fn text_content_len(s: Seq<u8>, e: TextEncoding, terminated: bool) -> int {
    if terminated {
        terminator_start(s, term_width(e))
    } else if ends_with_sentinel(s, term_width(e)) {
        s.len() - term_width(e)
    } else {
        s.len() as int
    }
}

/// How many bytes one decode consumes: the text plus its sentinel, when a
/// sentinel is present.
pub open spec fn text_consumed_len(s: Seq<u8>, e: TextEncoding, terminated: bool) -> int {
    if terminated && has_terminator(s, term_width(e)) {
        terminator_start(s, term_width(e)) + term_width(e)
    } else {
        s.len() as int
    }
}

/// Latin-1 reads each byte as the character with that code point.
pub open spec fn latin1_chars(bytes: Seq<u8>) -> Seq<char> {
    Seq::new(bytes.len(), |i: int| bytes[i] as char)
}

/// The Latin-1 encoding of a text whose characters all fall in the first 256
/// code points.
pub open spec fn latin1_bytes(chars: Seq<char>) -> Seq<u8> {
    Seq::new(chars.len(), |i: int| (chars[i] as u32) as u8)
}

/// Big-endian UTF-16 code units read from consecutive byte pairs.
pub open spec fn be_units(bytes: Seq<u8>) -> Seq<u16> {
    Seq::new((bytes.len() / 2) as nat, |i: int| ((bytes[2 * i] as int) * 256 + bytes[2 * i + 1] as int) as u16)
}

/// Little-endian UTF-16 code units read from consecutive byte pairs.
pub open spec fn le_units(bytes: Seq<u8>) -> Seq<u16> {
    Seq::new((bytes.len() / 2) as nat, |i: int| ((bytes[2 * i + 1] as int) * 256 + bytes[2 * i] as int) as u16)
}

/// The characters a valid UTF-16 code-unit sequence decodes to, or `None`
/// where the sequence is not valid UTF-16 (an unpaired surrogate).
pub uninterp spec fn utf16_chars(units: Seq<u16>) -> Option<Seq<char>>;

/// What a content byte run decodes to under each encoding, or `None` where
/// the run is malformed for that encoding: not valid UTF-8, UTF-16 bytes
/// without a recognizable byte-order mark or with a dangling half code unit,
/// or code units that are not valid UTF-16.
pub open spec fn decoded_text(bytes: Seq<u8>, e: TextEncoding) -> Option<Seq<char>> {
    match e {
        TextEncoding::Latin1 => Some(latin1_chars(bytes)),
        TextEncoding::Utf8 => if valid_utf8(bytes) {
            Some(decode_utf8(bytes))
        } else {
            None
        },
        TextEncoding::Utf16 => if bytes.len() == 0 {
            Some(Seq::empty())
        } else if bytes.len() >= 2 && bytes[0] == 0xff && bytes[1] == 0xfe && (bytes.len() - 2)
            % 2 == 0 {
            utf16_chars(le_units(bytes.skip(2)))
        } else if bytes.len() >= 2 && bytes[0] == 0xfe && bytes[1] == 0xff && (bytes.len() - 2)
            % 2 == 0 {
            utf16_chars(be_units(bytes.skip(2)))
        } else {
            None
        },
        TextEncoding::Utf16Be => if bytes.len() % 2 == 0 {
            utf16_chars(be_units(bytes))
        } else {
            None
        },
    }
}

/// Full behaviour of one `decode_text` call on a cursor whose remaining
/// bytes were `s`, leaving `s2` remaining: too few bytes for even one code
/// unit yield no value and consume nothing; otherwise the consumed span is
/// fixed by the termination mode and the decoded characters by the encoding,
/// a malformed run failing with the text error.
pub open spec fn decode_text_post(
    s: Seq<u8>,
    e: TextEncoding,
    terminated: bool,
    r: Result<Option<String>, Id3v2Error>,
    s2: Seq<u8>,
) -> bool {
    if s.len() < term_width(e) {
        r matches Ok(None) && s2 == s
    } else {
        let cl = text_content_len(s, e, terminated);
        let kl = text_consumed_len(s, e, terminated);
        s2 == s.skip(kl) && match decoded_text(s.take(cl), e) {
            Some(cs) => r matches Ok(Some(t)) && t@ == cs,
            None => r == Err::<Option<String>, Id3v2Error>(Id3v2Error::MalformedText),
        }
    }
}

/// Relies on `String::push`: appends the given character to the string.
#[verifier::external_body]
fn push_char(s: &mut String, c: char)
    ensures
        final(s)@ == old(s)@.push(c),
{
    s.push(c);
}

/// Relies on `String::from_utf8`: succeeds exactly on valid UTF-8 input and
/// returns the string those bytes encode.
#[verifier::external_body]
fn utf8_to_string(bytes: Vec<u8>) -> (r: Option<String>)
    ensures
        match r {
            Some(t) => valid_utf8(bytes@) && t@ == decode_utf8(bytes@),
            None => !valid_utf8(bytes@),
        },
{
    match String::from_utf8(bytes) {
        Ok(t) => Some(t),
        Err(_) => None,
    }
}

/// Relies on `String::from_utf16`: succeeds exactly on valid UTF-16 code
/// units; the result depends on the units alone.
#[verifier::external_body]
fn utf16_to_string(units: &Vec<u16>) -> (r: Option<String>)
    ensures
        match r {
            Some(t) => utf16_chars(units@) == Some(t@),
            None => utf16_chars(units@) is None,
        },
{
    match String::from_utf16(units.as_slice()) {
        Ok(t) => Some(t),
        Err(_) => None,
    }
}

/// Finds the first aligned null sentinel in the remaining bytes: whether one
/// exists, and its byte offset (the remaining length when there is none).
fn scan_terminator(content: &Cursor, w: usize) -> (r: (bool, usize))
    requires
        content.wf(),
        w == 1 || w == 2,
    ensures
        r.0 == has_terminator(content.remaining(), w as int),
        r.1 == terminator_start(content.remaining(), w as int),
{
    let ghost s = content.remaining();
    let len = content.remaining_len();
    let mut i: usize = 0;
    proof {
        assert(s.skip(0) =~= s);
    }
    loop
        invariant
            content.wf(),
            s == content.remaining(),
            len == s.len(),
            w == 1 || w == 2,
            i <= len,
            terminator_start(s, w as int) == i + terminator_start(s.skip(i as int), w as int),
            has_terminator(s, w as int) == has_terminator(s.skip(i as int), w as int),
        decreases len - i,
    {
        if len - i < w {
            proof {
                assert(s.skip(i as int).len() < w);
            }
            return (false, len);
        }
        let hit = if w == 1 {
            content.peek(i) == 0
        } else {
            content.peek(i) == 0 && content.peek(i + 1) == 0
        };
        proof {
            assert(s.skip(i as int)[0] == s[i as int]);
            if w == 2 {
                assert(s.skip(i as int)[1] == s[i as int + 1]);
            }
            assert(hit == sentinel_at_front(s.skip(i as int), w as int));
        }
        if hit {
            return (true, i);
        }
        proof {
            assert(s.skip(i as int).skip(w as int) =~= s.skip(i as int + w as int));
        }
        i = i + w;
    }
}

/// Decodes a Latin-1 byte run, one character per byte.
fn latin1_to_string(bytes: &Vec<u8>) -> (r: String)
    ensures
        r@ == latin1_chars(bytes@),
{
    let mut out = String::new();
    let mut i: usize = 0;
    while i < bytes.len()
        invariant
            i <= bytes@.len(),
            out@ == latin1_chars(bytes@.take(i as int)),
        decreases bytes@.len() - i,
    {
        let c = bytes[i] as char;
        push_char(&mut out, c);
        i = i + 1;
        proof {
            assert(out@ =~= latin1_chars(bytes@.take(i as int)));
        }
    }
    proof {
        assert(bytes@.take(bytes@.len() as int) =~= bytes@);
    }
    out
}

/// Reads consecutive byte pairs as UTF-16 code units of the given byte
/// order.
fn units_of(bytes: &Vec<u8>, big_endian: bool) -> (r: Vec<u16>)
    requires
        bytes@.len() % 2 == 0,
    ensures
        big_endian ==> r@ == be_units(bytes@),
        !big_endian ==> r@ == le_units(bytes@),
{
    let n = bytes.len() / 2;
    let mut out: Vec<u16> = Vec::new();
    let mut k: usize = 0;
    while k < n
        invariant
            n == bytes@.len() / 2,
            bytes@.len() % 2 == 0,
            k <= n,
            big_endian ==> out@ == be_units(bytes@).take(k as int),
            !big_endian ==> out@ == le_units(bytes@).take(k as int),
        decreases n - k,
    {
        proof {
            vstd::arithmetic::div_mod::lemma_fundamental_div_mod(bytes@.len() as int, 2);
            assert(bytes@.len() == 2 * (n as int));
            assert(bytes@.len() == bytes.len());
            assert(2 * (k as int) + 1 < bytes@.len());
        }
        let hi = bytes[2 * k];
        let lo = bytes[2 * k + 1];
        let u: u16 = if big_endian {
            (hi as u16) * 256 + (lo as u16)
        } else {
            (lo as u16) * 256 + (hi as u16)
        };
        out.push(u);
        k = k + 1;
        proof {
            if big_endian {
                assert(out@ =~= be_units(bytes@).take(k as int));
            } else {
                assert(out@ =~= le_units(bytes@).take(k as int));
            }
        }
    }
    proof {
        if big_endian {
            assert(be_units(bytes@).take(n as int) =~= be_units(bytes@));
        } else {
            assert(le_units(bytes@).take(n as int) =~= le_units(bytes@));
        }
    }
    out
}

/// Decodes one text field from the front of the cursor under the declared
/// encoding, stopping at the first aligned null sentinel when `terminated`
/// and running to the end of the buffer otherwise. A sentinel — the one
/// stopped at, or one that ends a to-end run — is consumed along with the
/// text but is not part of it.
pub fn decode_text(content: &mut Cursor, encoding: TextEncoding, terminated: bool) -> (r: Result<
    Option<String>,
    Id3v2Error,
>)
    requires
        old(content).wf(),
    ensures
        final(content).wf(),
        decode_text_post(
            old(content).remaining(),
            encoding,
            terminated,
            r,
            final(content).remaining(),
        ),
{
    let ghost s = old(content).remaining();
    let w: usize = match encoding {
        TextEncoding::Latin1 => 1,
        TextEncoding::Utf8 => 1,
        TextEncoding::Utf16 => 2,
        TextEncoding::Utf16Be => 2,
    };
    let len = content.remaining_len();
    if len < w {
        return Ok(None);
    }
    proof {
        lemma_terminator_start_le_len(s, w as int);
    }
    let cl: usize;
    let kl: usize;
    if terminated {
        let (found, start) = scan_terminator(content, w);
        cl = start;
        kl = if found {
            start + w
        } else {
            len
        };
    } else {
        let tail_sentinel = if w == 1 {
            content.peek(len - 1) == 0
        } else {
            len % 2 == 0 && content.peek(len - 2) == 0 && content.peek(len - 1) == 0
        };
        cl = if tail_sentinel {
            len - w
        } else {
            len
        };
        kl = len;
    }
    proof {
        assert(cl == text_content_len(s, encoding, terminated));
        assert(kl == text_consumed_len(s, encoding, terminated));
        assert(cl <= kl <= len);
    }
    let bytes = content.read_bytes(cl);
    content.advance(kl - cl);
    proof {
        assert(content.remaining() =~= s.skip(kl as int));
        assert(bytes@ == s.take(cl as int));
    }
    match encoding {
        TextEncoding::Latin1 => Ok(Some(latin1_to_string(&bytes))),
        TextEncoding::Utf8 => match utf8_to_string(bytes) {
            Some(t) => Ok(Some(t)),
            None => Err(Id3v2Error::MalformedText),
        },
        TextEncoding::Utf16 => {
            if bytes.len() == 0 {
                proof {
                    assert(decoded_text(bytes@, encoding) == Some(Seq::<char>::empty()));
                }
                Ok(Some(String::new()))
            } else if bytes.len() >= 2 && ((bytes[0] == 0xff && bytes[1] == 0xfe) || (bytes[0]
                == 0xfe && bytes[1] == 0xff)) && (bytes.len() - 2) % 2 == 0 {
                let big_endian = bytes[0] == 0xfe;
                let body = slice_to_vec(slice_subrange(bytes.as_slice(), 2, bytes.len()));
                proof {
                    assert(body@ =~= bytes@.skip(2));
                }
                let units = units_of(&body, big_endian);
                match utf16_to_string(&units) {
                    Some(t) => Ok(Some(t)),
                    None => Err(Id3v2Error::MalformedText),
                }
            } else {
                Err(Id3v2Error::MalformedText)
            }
        },
        TextEncoding::Utf16Be => {
            if bytes.len() % 2 != 0 {
                Err(Id3v2Error::MalformedText)
            } else {
                let units = units_of(&bytes, true);
                match utf16_to_string(&units) {
                    Some(t) => Ok(Some(t)),
                    None => Err(Id3v2Error::MalformedText),
                }
            }
        },
    }
}

/// In a byte run made of a zero-free prefix followed by a zero byte, the
/// first single-byte sentinel sits exactly after the prefix.
proof fn lemma_terminator_after_prefix(a: Seq<u8>, b: Seq<u8>)
    requires
        forall|i: int| 0 <= i < a.len() ==> a[i] != 0,
        b.len() > 0,
        b[0] == 0,
    ensures
        has_terminator(a + b, 1),
        terminator_start(a + b, 1) == a.len(),
    decreases a.len(),
{
    if a.len() == 0 {
        assert(a + b =~= b);
    } else {
        assert((a + b)[0] == a[0]);
        lemma_terminator_after_prefix(a.skip(1), b);
        assert((a + b).skip(1) =~= a.skip(1) + b);
    }
}

/// Round trip: a text whose characters all fit Latin-1 and are not the null
/// character, encoded as Latin-1 and terminated by a single zero byte,
/// decodes under "stop at the terminator" to exactly the original text and
/// leaves the cursor positioned immediately after the terminator, whatever
/// bytes follow it.
pub proof fn lemma_latin1_round_trip(
    text: Seq<char>,
    tail: Seq<u8>,
    r: Result<Option<String>, Id3v2Error>,
    s2: Seq<u8>,
)
    requires
        forall|i: int| 0 <= i < text.len() ==> 0 < (text[i] as u32) && (text[i] as u32) < 256,
        decode_text_post(
            latin1_bytes(text) + seq![0u8] + tail,
            TextEncoding::Latin1,
            true,
            r,
            s2,
        ),
    ensures
        r matches Ok(Some(t)) && t@ == text,
        s2 == tail,
{
    let a = latin1_bytes(text);
    let b = seq![0u8] + tail;
    let s = latin1_bytes(text) + seq![0u8] + tail;
    assert(s =~= a + b);
    assert forall|i: int| 0 <= i < a.len() implies a[i] != 0 by {
        assert(0 < (text[i] as u32) && (text[i] as u32) < 256);
    }
    lemma_terminator_after_prefix(a, b);
    assert(text_content_len(s, TextEncoding::Latin1, true) == a.len());
    assert(text_consumed_len(s, TextEncoding::Latin1, true) == a.len() + 1);
    assert(s.take(a.len() as int) =~= a);
    assert forall|i: int| 0 <= i < text.len() implies latin1_chars(a)[i] == text[i] by {
        vstd::utf8::char_u32_cast(text[i], text[i] as u32);
        assert((text[i] as u32) as u8 == text[i] as u32);
    }
    assert(latin1_chars(a) =~= text);
    assert(s.skip(a.len() as int + 1) =~= tail);
}

/// The first sentinel offset never lies past the end of the byte run.
pub proof fn lemma_terminator_start_le_len(s: Seq<u8>, w: int)
    requires
        w == 1 || w == 2,
    ensures
        0 <= terminator_start(s, w) <= s.len(),
        has_terminator(s, w) ==> terminator_start(s, w) + w <= s.len(),
    decreases s.len(),
{
    if s.len() < w {
    } else if sentinel_at_front(s, w) {
    } else {
        lemma_terminator_start_le_len(s.skip(w), w);
    }
}

} // verus!
