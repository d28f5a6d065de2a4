use vstd::prelude::*;

use vstd::utf8::decode_utf8;
use vstd::utf8::valid_utf8;

verus! {

/// The byte that ends a line; it is consumed and never part of the output.
pub const LINE_TERMINATOR: u8 = 0x0A;

/// How many bytes make up the UTF-8 character whose first byte is `first`:
/// a byte of the form 110xxxxx opens a 2-byte character, 1110xxxx a 3-byte
/// one, 1111xxxx a 4-byte one, and anything else stands alone.
pub open spec fn spec_char_total_len(first: u8) -> int {
    if first & 0xF0 == 0xF0 {
        4
    } else if first & 0xF0 == 0xE0 {
        3
    } else if first & 0xE0 == 0xC0 {
        2
    } else {
        1
    }
}

/// The total number of bytes of the character that `first` opens, so that
/// the reader can fetch the remaining bytes in one request — and never issue
/// a zero-length read, which the transport would block on.
pub fn char_total_len(first: u8) -> (n: usize)
    ensures
        n == spec_char_total_len(first),
        1 <= n <= 4,
{
    if first & 0xF0 == 0xF0 {
        4
    } else if first & 0xF0 == 0xE0 {
        3
    } else if first & 0xE0 == 0xC0 {
        2
    } else {
        1
    }
}

/// On a byte sequence that starts a well-formed UTF-8 character, the length
/// read from the first byte is exactly the length of that character's
/// encoding: the decoder's byte counter never splits or overshoots a
/// character.
pub proof fn lemma_char_total_len_agrees(bytes: Seq<u8>)
    requires
        vstd::utf8::valid_first_scalar(bytes),
    ensures
        spec_char_total_len(bytes[0]) == vstd::utf8::length_of_first_scalar(bytes),
{
    broadcast use vstd::utf8::utf8_byte_ranges_bitwise;

    let b = bytes[0];
    if vstd::utf8::is_leading_byte_width_1(b) {
        assert(b & 0xF0 != 0xF0 && b & 0xF0 != 0xE0 && b & 0xE0 != 0xC0) by (bit_vector)
            requires
                0x00 <= b <= 0x7f,
        ;
    } else if vstd::utf8::is_leading_byte_width_2(b) {
        assert(b & 0xF0 != 0xF0 && b & 0xF0 != 0xE0 && b & 0xE0 == 0xC0) by (bit_vector)
            requires
                0xc0 <= b <= 0xdf,
        ;
    } else if vstd::utf8::is_leading_byte_width_3(b) {
        assert(b & 0xF0 != 0xF0 && b & 0xF0 == 0xE0) by (bit_vector)
            requires
                0xe0 <= b <= 0xef,
        ;
    } else {
        assert(b & 0xF0 == 0xF0) by (bit_vector)
            requires
                0xf0 <= b <= 0xf7,
        ;
    }
}

/// What the permissive UTF-8 decoding returns, named: a function of the
/// bytes alone, the same on every call.
pub uninterp spec fn lossy_decode(bytes: Seq<u8>) -> Seq<char>;

/// Relies on String::from_utf8_lossy: a valid UTF-8 byte sequence decodes to
/// exactly its characters; invalid sequences are replaced, never rejected,
/// so every byte sequence yields a string.
#[verifier::external_body]
fn lossy_string(bytes: &Vec<u8>) -> (r: String)
    ensures
        r@ == lossy_decode(bytes@),
        valid_utf8(bytes@) ==> r@ == decode_utf8(bytes@),
{
    String::from_utf8_lossy(bytes.as_slice()).into_owned()
}

/// Assembles newline-terminated text lines out of whole UTF-8 characters,
/// one character at a time. The caller reads each character's bytes from the
/// transport (the first byte, then the rest of the character in a single
/// request, sized by [`char_total_len`]) and pushes them here.
pub struct LineFrameDecoder {
    buf: Vec<u8>,
}

/// The buffer contents after one character arrives: the terminator ends the
/// line and empties the buffer; any other character is appended whole.
pub open spec fn push_spec(buf: Seq<u8>, ch: Seq<u8>) -> Seq<u8> {
    if ch == seq![LINE_TERMINATOR] {
        Seq::empty()
    } else {
        buf + ch
    }
}

/// The buffer contents after a sequence of characters arrives, in order.
pub open spec fn feed_spec(buf: Seq<u8>, chunks: Seq<Seq<u8>>) -> Seq<u8>
    decreases chunks.len(),
{
    if chunks.len() == 0 {
        buf
    } else {
        feed_spec(push_spec(buf, chunks[0]), chunks.drop_first())
    }
}

impl LineFrameDecoder {
    /// The bytes accumulated for the line being assembled.
    pub closed spec fn pending(self) -> Seq<u8> {
        self.buf@
    }

    /// A decoder with nothing accumulated.
    pub fn new() -> (d: LineFrameDecoder)
        ensures
            d.pending() == Seq::<u8>::empty(),
    {
        LineFrameDecoder { buf: Vec::new() }
    }

    /// Accept the bytes of one complete character. The single terminator
    /// byte ends the line: the accumulated bytes are decoded (permissively —
    /// a valid UTF-8 accumulation decodes to exactly its characters), the
    /// buffer is emptied for the next line, and the terminator itself is
    /// excluded. Any other character is appended whole and no line is
    /// produced.
    pub fn push_char(&mut self, ch: &Vec<u8>) -> (r: Option<String>)
        ensures
            final(self).pending() == push_spec(old(self).pending(), ch@),
            ch@ == seq![LINE_TERMINATOR] ==> (r matches Some(s) && s@ == lossy_decode(
                old(self).pending(),
            )),
            ch@ != seq![LINE_TERMINATOR] ==> r is None,
            ch@ == seq![LINE_TERMINATOR] && valid_utf8(old(self).pending()) ==> (r matches Some(s)
                && s@ == decode_utf8(old(self).pending())),
    {
        if ch.len() == 1 && ch[0] == LINE_TERMINATOR {
            proof {
                assert(ch@ =~= seq![LINE_TERMINATOR]);
            }
            let line = lossy_string(&self.buf);
            self.buf = Vec::new();
            Some(line)
        } else {
            proof {
                assert(ch@ != seq![LINE_TERMINATOR]);
            }
            let mut k: usize = 0;
            let n = ch.len();
            while k < n
                invariant
                    k <= n,
                    n == ch@.len(),
                    self.buf@ == old(self).buf@ + ch@.take(k as int),
                decreases n - k,
            {
                self.buf.push(ch[k]);
                proof {
                    assert(old(self).buf@ + ch@.take(k + 1) =~= (old(self).buf@ + ch@.take(
                        k as int,
                    )).push(ch@[k as int]));
                }
                k += 1;
            }
            proof {
                assert(ch@.take(n as int) =~= ch@);
            }
            None
        }
    }
}

/// Law: an input line arrives as complete characters — none of them the
/// terminator — followed by the terminator. Feeding the characters in order
/// into an empty decoder accumulates exactly their bytes, nothing dropped,
/// reordered or re-read; when each character is well-formed UTF-8, the
/// accumulation is well-formed too, and decoding it yields exactly the
/// characters before the terminator, each chunk's in turn.
pub proof fn lemma_line_framing(chunks: Seq<Seq<u8>>)
    requires
        forall|i: int| 0 <= i < chunks.len() ==> #[trigger] chunks[i] != seq![LINE_TERMINATOR],
        forall|i: int| 0 <= i < chunks.len() ==> valid_utf8(#[trigger] chunks[i]),
    ensures
        feed_spec(Seq::<u8>::empty(), chunks) == chunks.flatten(),
        valid_utf8(chunks.flatten()),
        decode_utf8(chunks.flatten()) == chunks.map_values(|c: Seq<u8>| decode_utf8(c)).flatten(),
{
    lemma_feed_appends(Seq::<u8>::empty(), chunks);
    assert(Seq::<u8>::empty() + chunks.flatten() =~= chunks.flatten());
    lemma_flatten_valid_utf8(chunks);
}

/// Decoding distributes over concatenation of well-formed UTF-8 sequences.
proof fn lemma_decode_utf8_concat(a: Seq<u8>, b: Seq<u8>)
    requires
        valid_utf8(a),
        valid_utf8(b),
    ensures
        valid_utf8(a + b),
        decode_utf8(a + b) == decode_utf8(a) + decode_utf8(b),
    decreases a.len(),
{
    vstd::utf8::valid_utf8_concat(a, b);
    if a.len() == 0 {
        assert(a + b =~= b);
        assert(decode_utf8(a) + decode_utf8(b) =~= decode_utf8(b));
    } else {
        let ab = a + b;
        assert(forall|k: int| 0 <= k < a.len() ==> ab[k] == a[k]);
        let l = vstd::utf8::length_of_first_scalar(a);
        assert(1 <= l <= a.len());
        assert(vstd::utf8::length_of_first_scalar(ab) == l);
        assert(vstd::utf8::decode_first_scalar(ab) == vstd::utf8::decode_first_scalar(a));
        assert(vstd::utf8::pop_first_scalar(ab) =~= vstd::utf8::pop_first_scalar(a) + b);
        lemma_decode_utf8_concat(vstd::utf8::pop_first_scalar(a), b);
        assert(decode_utf8(ab) =~= decode_utf8(a) + decode_utf8(b));
    }
}

proof fn lemma_feed_appends(buf: Seq<u8>, chunks: Seq<Seq<u8>>)
    requires
        forall|i: int| 0 <= i < chunks.len() ==> #[trigger] chunks[i] != seq![LINE_TERMINATOR],
    ensures
        feed_spec(buf, chunks) == buf + chunks.flatten(),
    decreases chunks.len(),
{
    if chunks.len() == 0 {
        assert(buf + chunks.flatten() =~= buf);
    } else {
        assert(chunks[0] != seq![LINE_TERMINATOR]);
        lemma_feed_appends(buf + chunks[0], chunks.drop_first());
        assert((buf + chunks[0]) + chunks.drop_first().flatten() =~= buf + chunks.flatten());
    }
}

proof fn lemma_flatten_valid_utf8(chunks: Seq<Seq<u8>>)
    requires
        forall|i: int| 0 <= i < chunks.len() ==> valid_utf8(#[trigger] chunks[i]),
    ensures
        valid_utf8(chunks.flatten()),
        decode_utf8(chunks.flatten()) == chunks.map_values(|c: Seq<u8>| decode_utf8(c)).flatten(),
    decreases chunks.len(),
{
    let decoded = chunks.map_values(|c: Seq<u8>| decode_utf8(c));
    if chunks.len() == 0 {
        assert(chunks.flatten() =~= Seq::<u8>::empty());
        assert(decoded.flatten() =~= Seq::<char>::empty());
    } else {
        let rest = chunks.drop_first();
        lemma_flatten_valid_utf8(rest);
        lemma_decode_utf8_concat(chunks[0], rest.flatten());
        assert(decoded.drop_first() =~= rest.map_values(|c: Seq<u8>| decode_utf8(c)));
        assert(decoded.flatten() == decoded.first() + decoded.drop_first().flatten());
        assert(decode_utf8(chunks.flatten()) =~= decoded.flatten());
    }
}

} // verus!
