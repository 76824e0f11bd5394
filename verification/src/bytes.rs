//! Texts as bytes: UTF-8 and the lines of a file.

use crate::text::{first_index, lemma_first_index, lemma_first_index_bounds, lines, without_last};
use vstd::prelude::*;
use vstd::string::*;
use vstd::utf8::*;

verus! {

/// The lines of a file's contents.
pub open spec fn byte_lines(bytes: Seq<u8>) -> Seq<Seq<u8>> {
    lines(bytes, 0x0au8, 0x0du8)
}

/// Decodes UTF-8 with `String::from_utf8`, which accepts exactly the valid byte sequences.
#[verifier::external_body]
pub(crate) fn decode(bytes: Vec<u8>) -> (r: Option<String>)
    ensures
        match r {
            Some(text) => valid_utf8(bytes@) && text@ == decode_utf8(bytes@),
            None => !valid_utf8(bytes@),
        },
{
    String::from_utf8(bytes).ok()
}

/// The line that starts at `pos`: where its bytes end and where the next line starts.
pub fn next_byte_line(bytes: &[u8], pos: usize) -> (r: (usize, usize))
    requires
        pos < bytes@.len(),
    ensures
        pos <= r.0 <= r.1 <= bytes@.len(),
        pos < r.1,
        byte_lines(bytes@.skip(pos as int)) == seq![bytes@.subrange(pos as int, r.0 as int)]
            + byte_lines(bytes@.skip(r.1 as int)),
{
    let ghost rest = bytes@.skip(pos as int);
    let mut i: usize = pos;
    while i < bytes.len() && bytes[i] != 0x0a
        invariant
            pos <= i <= bytes@.len(),
            forall|j: int| pos <= j < i ==> #[trigger] bytes@[j] != 0x0a,
        decreases bytes.len() - i,
    {
        i = i + 1;
    }
    proof {
        assert forall|j: int| 0 <= j < i - pos implies #[trigger] rest[j] != 0x0a by {
            assert(bytes@[pos + j] != 0x0a);
        }
        lemma_first_index(rest, 0x0au8, i - pos);
    }
    if i == bytes.len() {
        assert(rest =~= bytes@.subrange(pos as int, i as int));
        assert(bytes@.skip(i as int) =~= seq![]);
        assert(byte_lines(bytes@.skip(i as int)) =~= seq![]);
        return (i, i);
    }
    assert(rest.take(i - pos) =~= bytes@.subrange(pos as int, i as int));
    assert(rest.skip(i - pos + 1) =~= bytes@.skip(i + 1));
    if i > pos && bytes[i - 1] == 0x0d {
        assert(rest.take(i - pos).drop_last() =~= bytes@.subrange(pos as int, i - 1));
        (i - 1, i + 1)
    } else {
        (i, i + 1)
    }
}

/// Encoding distributes over concatenation.
pub proof fn lemma_encode_concat(a: Seq<char>, b: Seq<char>)
    ensures
        encode_utf8(a + b) == encode_utf8(a) + encode_utf8(b),
    decreases a.len(),
{
    if a.len() == 0 {
        assert(a + b =~= b);
        assert(encode_utf8(a) + encode_utf8(b) =~= encode_utf8(b));
    } else {
        assert((a + b).drop_first() =~= a.drop_first() + b);
        lemma_encode_concat(a.drop_first(), b);
        assert(encode_utf8(a + b) =~= encode_utf8(a) + encode_utf8(b));
    }
}

proof fn lemma_encode_scalar_printable(c: u32)
    requires
        0x20 <= c,
    ensures
        forall|i: int| 0 <= i < encode_scalar(c).len() ==> 0x20 <= #[trigger] encode_scalar(c)[i],
{
    assert(0x20 <= c <= 0x7f ==> (c & 0x7F) as u8 >= 0x20) by (bit_vector);
    assert(0xC0 | ((c >> 6) & 0x1F) as u8 >= 0x20u8) by (bit_vector);
    assert(0xE0 | ((c >> 12) & 0x0F) as u8 >= 0x20u8) by (bit_vector);
    assert(0xF0 | ((c >> 18) & 0x7) as u8 >= 0x20u8) by (bit_vector);
    assert(0x80 | (c & 0x3F) as u8 >= 0x20u8) by (bit_vector);
    assert(0x80 | ((c >> 6) & 0x3F) as u8 >= 0x20u8) by (bit_vector);
    assert(0x80 | ((c >> 12) & 0x3F) as u8 >= 0x20u8) by (bit_vector);
}

proof fn lemma_encode_char_printable(c: char)
    requires
        c >= ' ',
    ensures
        forall|i: int|
            0 <= i < encode_scalar(c as u32).len() ==> 0x20 <= #[trigger] encode_scalar(
                c as u32,
            )[i],
{
    lemma_encode_scalar_printable(c as u32);
}

/// A text without control characters has no byte of a control character.
pub proof fn lemma_encode_printable(s: Seq<char>)
    requires
        forall|i: int| 0 <= i < s.len() ==> #[trigger] s[i] >= ' ',
    ensures
        forall|i: int| 0 <= i < encode_utf8(s).len() ==> 0x20 <= #[trigger] encode_utf8(s)[i],
    decreases s.len(),
{
    if s.len() > 0 {
        lemma_encode_char_printable(s[0]);
        let rest = s.drop_first();
        assert forall|i: int| 0 <= i < rest.len() implies #[trigger] rest[i] >= ' ' by {
            assert(rest[i] == s[i + 1]);
        }
        lemma_encode_printable(rest);
        let head = encode_scalar(s[0] as u32);
        let tail = encode_utf8(rest);
        assert forall|i: int| 0 <= i < encode_utf8(s).len() implies 0x20 <= #[trigger] encode_utf8(
            s,
        )[i] by {
            if i < head.len() {
                assert(encode_utf8(s)[i] == head[i]);
            } else {
                assert(encode_utf8(s)[i] == tail[i - head.len()]);
            }
        }
    }
}

pub proof fn lemma_encode_line_feed()
    ensures
        encode_utf8(seq!['\n']) == seq![0x0au8],
{
    assert((0x0au32 & 0x7F) as u8 == 0x0au8) by (bit_vector);
    assert(seq!['\n'].drop_first() =~= seq![]);
    assert(encode_utf8(seq!['\n'].drop_first()) =~= seq![]);
    assert(encode_utf8(seq!['\n']) =~= seq![0x0au8]);
}

/// Whether `s` is empty or ends with a line feed.
pub open spec fn is_terminated(s: Seq<u8>) -> bool {
    s.len() == 0 || s.last() == 0x0a
}

/// Behind complete lines, the lines of what follows come next.
pub proof fn lemma_lines_concat(a: Seq<u8>, b: Seq<u8>)
    requires
        is_terminated(a),
    ensures
        byte_lines(a + b) == byte_lines(a) + byte_lines(b),
    decreases a.len(),
{
    if a.len() == 0 {
        assert(a + b =~= b);
        assert(byte_lines(a) + byte_lines(b) =~= byte_lines(b));
    } else {
        let k = first_index(a, 0x0au8);
        lemma_first_index_bounds(a, 0x0au8);
        if k == a.len() {
            assert(a[a.len() - 1] == 0x0a);
        }
        assert forall|j: int| 0 <= j < k implies #[trigger] (a + b)[j] != 0x0a by {
            assert(a[j] != 0x0a);
        }
        lemma_first_index(a + b, 0x0au8, k);
        assert((a + b).take(k) =~= a.take(k));
        assert((a + b).skip(k + 1) =~= a.skip(k + 1) + b);
        lemma_lines_concat(a.skip(k + 1), b);
        assert(byte_lines(a + b) =~= byte_lines(a) + byte_lines(b));
    }
}

/// One complete line without control characters.
pub proof fn lemma_single_line(body: Seq<u8>)
    requires
        forall|i: int| 0 <= i < body.len() ==> 0x20 <= #[trigger] body[i],
    ensures
        byte_lines(body.push(0x0a)) == seq![body],
{
    let s = body.push(0x0a);
    let k = body.len() as int;
    assert forall|j: int| 0 <= j < k implies #[trigger] s[j] != 0x0a by {
        assert(body[j] >= 0x20);
    }
    lemma_first_index(s, 0x0au8, k);
    assert(s.take(k) =~= body);
    if body.len() > 0 {
        assert(body[body.len() - 1] >= 0x20);
    }
    assert(without_last(body, 0x0du8) == body);
    assert(s.skip(k + 1) =~= seq![]);
    assert(byte_lines(s.skip(k + 1)) =~= seq![]);
    assert(byte_lines(s) =~= seq![body]);
}

} // verus!
