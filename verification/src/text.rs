//! Text fields on the wire: UTF-8 bytes closed by a single NUL.

use vstd::prelude::*;
use vstd::utf8::*;

verus! {

/// No byte of `s` is the NUL terminator.
pub open spec fn nul_free(s: Seq<u8>) -> bool {
    forall|i: int| 0 <= i < s.len() ==> s[i] != 0
}

/// No character of `t` is U+0000.
pub open spec fn nul_free_text(t: Seq<char>) -> bool {
    forall|i: int| 0 <= i < t.len() ==> t[i] != '\0'
}

/// Position of the first NUL byte of `s`, or `s.len()` if it has none.
pub open spec fn first_nul(s: Seq<u8>) -> int
    decreases s.len(),
{
    if s.len() == 0 || s[0] == 0 {
        0
    } else {
        1 + first_nul(s.drop_first())
    }
}

/// `first_nul` is in range, nothing before it is NUL, and it points at a NUL
/// whenever it points into the sequence.
pub proof fn lemma_first_nul(s: Seq<u8>)
    ensures
        0 <= first_nul(s) <= s.len(),
        nul_free(s.take(first_nul(s))),
        first_nul(s) < s.len() ==> s[first_nul(s)] == 0,
    decreases s.len(),
{
    if s.len() == 0 || s[0] == 0 {
    } else {
        let t = s.drop_first();
        lemma_first_nul(t);
        let k = first_nul(t);
        let p = s.take(k + 1);
        assert forall|i: int| 0 <= i < p.len() implies p[i] != 0 by {
            if i > 0 {
                assert(p[i] == t.take(k)[i - 1]);
            }
        }
    }
}

/// A NUL-free prefix followed by a NUL puts the first NUL right after the prefix.
pub proof fn lemma_first_nul_after(head: Seq<u8>, tail: Seq<u8>)
    requires
        nul_free(head),
    ensures
        first_nul(head + seq![0u8] + tail) == head.len(),
    decreases head.len(),
{
    let s = head + seq![0u8] + tail;
    if head.len() == 0 {
        assert(s[0] == 0);
    } else {
        assert(s[0] == head[0]);
        assert(s.drop_first() =~= head.drop_first() + seq![0u8] + tail);
        assert forall|i: int| 0 <= i < head.drop_first().len() implies head.drop_first()[i]
            != 0 by {
            assert(head.drop_first()[i] == head[i + 1]);
        }
        lemma_first_nul_after(head.drop_first(), tail);
    }
}

/// A sequence without NUL has its "first NUL" at its end, and only such a one.
pub proof fn lemma_first_nul_at_end(s: Seq<u8>)
    ensures
        first_nul(s) == s.len() <==> nul_free(s),
{
    lemma_first_nul(s);
    if first_nul(s) == s.len() {
        assert(s.take(s.len() as int) =~= s);
    }
}

/// The UTF-8 encoding of one scalar value is never empty, and holds a zero
/// byte only for U+0000.
proof fn lemma_scalar_bytes(c: u32)
    requires
        is_scalar(c),
    ensures
        encode_scalar(c).len() >= 1,
        c != 0 ==> nul_free(encode_scalar(c)),
        c == 0 ==> encode_scalar(c) == seq![0u8],
{
    assert(c <= 0x7F ==> ((c & 0x7F) as u8 == 0 <==> c == 0)) by (bit_vector);
    assert((0xC0u8 | ((c >> 6) & 0x1F) as u8) != 0) by (bit_vector);
    assert((0xE0u8 | ((c >> 12) & 0x0F) as u8) != 0) by (bit_vector);
    assert((0xF0u8 | ((c >> 18) & 0x7) as u8) != 0) by (bit_vector);
    assert((0x80u8 | (c & 0x3F) as u8) != 0) by (bit_vector);
    assert((0x80u8 | ((c >> 6) & 0x3F) as u8) != 0) by (bit_vector);
    assert((0x80u8 | ((c >> 12) & 0x3F) as u8) != 0) by (bit_vector);
    if c == 0 {
        assert(encode_scalar(c) =~= seq![0u8]);
    }
}

/// UTF-8 keeps NUL apart: the encoding of a text holds a zero byte exactly
/// when the text holds U+0000, and is empty exactly when the text is.
pub proof fn lemma_utf8_nul(t: Seq<char>)
    ensures
        nul_free(encode_utf8(t)) <==> nul_free_text(t),
        encode_utf8(t).len() == 0 <==> t.len() == 0,
    decreases t.len(),
{
    if t.len() > 0 {
        let c = t[0] as u32;
        let head = encode_scalar(c);
        let rest = t.drop_first();
        let tail = encode_utf8(rest);
        char_is_scalar(t[0]);
        assert(c == 0 <==> t[0] == '\0') by {
            assert('\0' as u32 == 0);
            char_u32_cast(t[0], c);
            char_u32_cast('\0', 0u32);
        }
        lemma_scalar_bytes(c);
        lemma_utf8_nul(rest);
        assert(encode_utf8(t) == head + tail);
        if nul_free_text(t) {
            assert(t[0] != '\0');
            assert forall|i: int| 0 <= i < rest.len() implies rest[i] != '\0' by {
                assert(rest[i] == t[i + 1]);
            }
            assert forall|i: int| 0 <= i < (head + tail).len() implies (head + tail)[i] != 0 by {
                if i < head.len() {
                    assert((head + tail)[i] == head[i]);
                } else {
                    assert((head + tail)[i] == tail[i - head.len()]);
                }
            }
        }
        if nul_free(head + tail) {
            if c == 0 {
                assert((head + tail)[0] == 0);
            }
            assert forall|i: int| 0 <= i < tail.len() implies tail[i] != 0 by {
                assert(tail[i] == (head + tail)[i + head.len()]);
            }
            assert forall|i: int| 0 <= i < t.len() implies t[i] != '\0' by {
                if i > 0 {
                    assert(t[i] == rest[i - 1]);
                }
            }
        }
    }
}


/// Trusted: `String::from_utf8` of std. It succeeds exactly on well-formed
/// UTF-8, and the string it gives has the input as its bytes.
#[verifier::external_body]
pub(crate) fn string_from_utf8(bytes: &[u8]) -> (r: Option<String>)
    ensures
        r is Some <==> valid_utf8(bytes@),
        r matches Some(s) ==> encode_utf8(s@) == bytes@,
{
    String::from_utf8(bytes.to_vec()).ok()
}

/// Position of the first NUL byte of `s`, or `s.len()` if it has none.
pub fn find_nul(s: &[u8]) -> (r: usize)
    ensures
        r == first_nul(s@),
{
    let mut i: usize = 0;
    while i < s.len()
        invariant
            i <= s@.len(),
            nul_free(s@.take(i as int)),
        decreases s@.len() - i,
    {
        if s[i] == 0 {
            proof {
                assert(s@ =~= s@.take(i as int) + seq![0u8] + s@.skip(i + 1));
                lemma_first_nul_after(s@.take(i as int), s@.skip(i + 1));
            }
            return i;
        }
        proof {
            let p = s@.take(i + 1);
            assert forall|j: int| 0 <= j < p.len() implies p[j] != 0 by {
                if j < i {
                    assert(p[j] == s@.take(i as int)[j]);
                }
            }
        }
        i += 1;
    }
    proof {
        assert(s@.take(i as int) =~= s@);
        lemma_first_nul_at_end(s@);
    }
    i
}

/// Reads a text field that fills `bytes`: UTF-8 to a string, or nothing
/// where the bytes are not UTF-8.
pub fn decode_text(bytes: &[u8]) -> (r: Option<String>)
    ensures
        r is Some <==> valid_utf8(bytes@),
        r matches Some(s) ==> s@ == decode_utf8(bytes@),
{
    let r = string_from_utf8(bytes);
    proof {
        if r is Some {
            encode_utf8_decode_utf8(r.unwrap()@);
        }
    }
    r
}

} // verus!
