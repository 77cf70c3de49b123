//! Cutting a diagnostic text down to a headline.
use vstd::prelude::*;
use vstd::utf8::{decode_utf8, encode_utf8, is_char_boundary};

verus! {

broadcast use {
    vstd::utf8::encode_utf8_valid_utf8,
    vstd::utf8::encode_utf8_decode_utf8,
    vstd::utf8::decode_utf8_split,
};

/// Display limit of a headline, in bytes of UTF-8.
pub const HEADLINE_LIMIT: usize = 256;

/// The length of the headline cut from a text whose encoding is `bytes`:
/// the largest character boundary that does not pass the limit.
pub open spec fn is_headline_cut(bytes: Seq<u8>, n: int) -> bool {
    &&& 0 <= n <= HEADLINE_LIMIT
    &&& n <= bytes.len()
    &&& is_char_boundary(bytes, n)
    &&& forall|m: int| n < m <= HEADLINE_LIMIT && m <= bytes.len() ==> !is_char_boundary(bytes, m)
}

/// `h` is the headline of `text`: its encoding is that of `text` up to
/// the headline cut.
pub open spec fn is_headline(text: Seq<char>, h: Seq<char>) -> bool {
    exists|n: int| is_headline_cut(encode_utf8(text), n) && encode_utf8(h) == encode_utf8(text).subrange(0, n)
}

/// Cuts `text` to at most `HEADLINE_LIMIT` bytes, at the last character
/// boundary within the limit, so that no character is ever split.
pub fn truncate_error(text: &str) -> (r: String)
    ensures
        is_headline(text@, r@),
        encode_utf8(r@).len() <= HEADLINE_LIMIT,
        r@.len() <= text@.len(),
        text@.subrange(0, r@.len() as int) == r@,
        encode_utf8(text@).len() <= HEADLINE_LIMIT ==> r@ == text@,
{
    let ghost bytes = encode_utf8(text@);
    let len = text.as_bytes().len();
    let mut new_len: usize = if len < HEADLINE_LIMIT { len } else { HEADLINE_LIMIT };
    proof {
        assert(len == bytes.len());
        vstd::utf8::is_char_boundary_start_end_of_seq(bytes);
    }
    while !text.is_char_boundary(new_len)
        invariant
            bytes == encode_utf8(text@),
            new_len <= HEADLINE_LIMIT,
            new_len <= bytes.len(),
            is_char_boundary(bytes, 0),
            forall|m: int| new_len < m <= HEADLINE_LIMIT && m <= bytes.len() ==> !is_char_boundary(bytes, m),
        decreases new_len,
    {
        new_len = new_len - 1;
    }
    let (head, _tail) = text.split_at(new_len);
    let r = head.to_owned();
    proof {
        let n = new_len as int;
        assert(is_headline_cut(bytes, n));
        assert(encode_utf8(r@) == bytes.subrange(0, n));
        assert(decode_utf8(bytes) == decode_utf8(bytes.subrange(0, n)) + decode_utf8(bytes.subrange(n, bytes.len() as int)));
        assert(decode_utf8(encode_utf8(r@)) == r@);
        assert(text@ == r@ + decode_utf8(bytes.subrange(n, bytes.len() as int)));
        assert(text@.subrange(0, r@.len() as int) =~= r@);
        if bytes.len() <= HEADLINE_LIMIT {
            assert(bytes.subrange(0, n) =~= bytes);
        }
    }
    r
}

} // verus!
