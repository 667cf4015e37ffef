//! The offset index: bidirectional maps between UTF-8 byte offsets and
//! Unicode codepoint offsets of a text.
//!
//! External positions are codepoint indices; the underlying engine works in
//! byte offsets into the UTF-8 encoding of the text.  `byte_of_cp` and
//! `cp_of_byte` are the two spec-level coordinate translations, and
//! `get_byte_to_code_point_and_reverse` builds both directions as arrays in
//! one linear scan over the text.  Positions that are not codepoint
//! boundaries hold the sentinel `usize::MAX` and are never read.

use vstd::prelude::*;
use vstd::utf8::{
    decode_utf8, decode_utf8_encode_utf8, encode_scalar, encode_utf8, encode_utf8_decode_utf8,
    encode_utf8_first_scalar, encode_utf8_valid_utf8, is_char_boundary, pop_first_scalar,
    length_of_first_scalar, valid_utf8_split, decode_utf8_split, char_is_scalar,
    is_char_boundary_start_end_of_seq,
};

verus! {

/// Number of bytes in the UTF-8 encoding of one character.
pub open spec fn char_bytes(c: char) -> int {
    encode_scalar(c as u32).len() as int
}

/// Byte offset at which the codepoint with index `cp` of `s` starts; at
/// `cp == s.len()` this is the total byte length of the encoded text.
pub open spec fn byte_of_cp(s: Seq<char>, cp: int) -> int
    decreases cp,
{
    if cp <= 0 {
        0
    } else {
        byte_of_cp(s, cp - 1) + char_bytes(s[cp - 1])
    }
}

/// Byte length of the UTF-8 encoding of `s`.
pub open spec fn byte_len(s: Seq<char>) -> int {
    byte_of_cp(s, s.len() as int)
}

/// Codepoint index corresponding to byte offset `b` of the encoding of `s`:
/// the number of characters encoded in the first `b` bytes.
pub open spec fn cp_of_byte(s: Seq<char>, b: int) -> int {
    decode_utf8(encode_utf8(s).subrange(0, b)).len() as int
}

/// True when byte offset `b` is a codepoint boundary of the encoding of `s`.
pub open spec fn boundary(s: Seq<char>, b: int) -> bool {
    is_char_boundary(encode_utf8(s), b)
}

/// Every character encodes to between one and four bytes.
pub proof fn lemma_char_bytes_range(c: char)
    ensures
        1 <= char_bytes(c) <= 4,
{
}

/// Encoding a concatenation encodes the parts in order.
proof fn lemma_encode_concat(a: Seq<char>, b: Seq<char>)
    ensures
        encode_utf8(a + b) == encode_utf8(a) + encode_utf8(b),
    decreases a.len(),
{
    if a.len() == 0 {
        assert(a + b =~= b);
        assert(encode_utf8(a) + encode_utf8(b) =~= encode_utf8(b));
    } else {
        assert((a + b).drop_first() =~= a.drop_first() + b);
        lemma_encode_concat(a.drop_first(), b);
        assert((a + b)[0] == a[0]);
        assert(encode_utf8(a + b) =~= encode_utf8(a) + encode_utf8(b));
    }
}

/// `byte_of_cp` measures the encoded length of the codepoint prefix.
pub proof fn lemma_byte_of_cp_is_encode_len(s: Seq<char>, cp: int)
    requires
        0 <= cp <= s.len(),
    ensures
        byte_of_cp(s, cp) == encode_utf8(s.subrange(0, cp)).len(),
    decreases cp,
{
    if cp == 0 {
        assert(s.subrange(0, 0) =~= Seq::<char>::empty());
    } else {
        lemma_byte_of_cp_is_encode_len(s, cp - 1);
        assert(s.subrange(0, cp) =~= s.subrange(0, cp - 1) + seq![s[cp - 1]]);
        lemma_encode_concat(s.subrange(0, cp - 1), seq![s[cp - 1]]);
        assert(seq![s[cp - 1]].drop_first() =~= Seq::<char>::empty());
        assert(encode_utf8(Seq::<char>::empty()) =~= Seq::<u8>::empty());
        assert(encode_utf8(seq![s[cp - 1]]) =~= encode_scalar(s[cp - 1] as u32)
            + encode_utf8(seq![s[cp - 1]].drop_first()));
        assert(encode_utf8(seq![s[cp - 1]]) =~= encode_scalar(s[cp - 1] as u32));
    }
}

/// Later codepoints start at strictly later byte offsets: each codepoint in
/// between contributes at least one byte.
pub proof fn lemma_byte_of_cp_mono(s: Seq<char>, c1: int, c2: int)
    requires
        0 <= c1 <= c2,
    ensures
        byte_of_cp(s, c1) + (c2 - c1) <= byte_of_cp(s, c2),
    decreases c2 - c1,
{
    if c1 < c2 {
        lemma_byte_of_cp_mono(s, c1, c2 - 1);
        lemma_char_bytes_range(s[c2 - 1]);
    }
}

/// The encoding of a codepoint prefix is the corresponding byte prefix of the
/// whole encoding.
pub proof fn lemma_encode_prefix(s: Seq<char>, cp: int)
    requires
        0 <= cp <= s.len(),
    ensures
        0 <= byte_of_cp(s, cp) <= byte_len(s),
        encode_utf8(s).subrange(0, byte_of_cp(s, cp)) == encode_utf8(s.subrange(0, cp)),
        byte_len(s) == encode_utf8(s).len(),
{
    assert(s =~= s.subrange(0, cp) + s.subrange(cp, s.len() as int));
    lemma_encode_concat(s.subrange(0, cp), s.subrange(cp, s.len() as int));
    lemma_byte_of_cp_is_encode_len(s, cp);
    lemma_byte_of_cp_mono(s, 0, cp);
    assert(s.subrange(0, s.len() as int) =~= s);
    lemma_byte_of_cp_is_encode_len(s, s.len() as int);
    lemma_byte_of_cp_mono(s, cp, s.len() as int);
    assert(encode_utf8(s).subrange(0, byte_of_cp(s, cp)) =~= encode_utf8(s.subrange(0, cp)));
}

/// Dropping the first character shifts byte offsets by that character's width.
proof fn lemma_byte_of_cp_shift(s: Seq<char>, cp: int)
    requires
        1 <= cp <= s.len(),
    ensures
        byte_of_cp(s, cp) == char_bytes(s[0]) + byte_of_cp(s.drop_first(), cp - 1),
    decreases cp,
{
    if cp == 1 {
        assert(byte_of_cp(s, 1) == byte_of_cp(s, 0) + char_bytes(s[0]));
        assert(byte_of_cp(s, 0) == 0);
        assert(byte_of_cp(s.drop_first(), 0) == 0);
    } else {
        lemma_byte_of_cp_shift(s, cp - 1);
        assert(s.drop_first()[cp - 2] == s[cp - 1]);
        assert(byte_of_cp(s, cp) == byte_of_cp(s, cp - 1) + char_bytes(s[cp - 1]));
        assert(byte_of_cp(s.drop_first(), cp - 1) == byte_of_cp(s.drop_first(), cp - 2)
            + char_bytes(s.drop_first()[cp - 2]));
    }
}

/// Popping the first scalar of the encoding drops the first character.
proof fn lemma_pop_first_scalar_encode(s: Seq<char>)
    requires
        s.len() > 0,
    ensures
        length_of_first_scalar(encode_utf8(s)) == char_bytes(s[0]),
        pop_first_scalar(encode_utf8(s)) == encode_utf8(s.drop_first()),
{
    encode_utf8_first_scalar(s);
    char_is_scalar(s[0]);
    assert(pop_first_scalar(encode_utf8(s)) =~= encode_utf8(s.drop_first()));
}

/// Round trip from codepoint offsets: the byte offset of a valid codepoint
/// index is a codepoint boundary, and translating it back yields the same
/// codepoint index.
pub proof fn lemma_byte_of_cp_boundary(s: Seq<char>, cp: int)
    requires
        0 <= cp <= s.len(),
    ensures
        boundary(s, byte_of_cp(s, cp)),
        cp_of_byte(s, byte_of_cp(s, cp)) == cp,
    decreases cp,
{
    broadcast use encode_utf8_valid_utf8;

    let bytes = encode_utf8(s);
    // The translated offset is a codepoint boundary.
    if cp == 0 {
    } else {
        lemma_pop_first_scalar_encode(s);
        lemma_byte_of_cp_shift(s, cp);
        lemma_byte_of_cp_boundary(s.drop_first(), cp - 1);
        lemma_byte_of_cp_mono(s, 0, cp);
        lemma_encode_prefix(s, cp);
        assert(is_char_boundary(bytes, byte_of_cp(s, cp)));
    }
    // Translating the offset back counts exactly the prefix characters.
    lemma_encode_prefix(s, cp);
    encode_utf8_decode_utf8(s.subrange(0, cp));
}

/// Round trip from byte offsets: every codepoint boundary is the byte offset
/// of exactly the codepoint index it translates to.
pub proof fn lemma_boundary_byte_of_cp(s: Seq<char>, b: int)
    requires
        0 <= b <= byte_len(s),
        boundary(s, b),
    ensures
        0 <= cp_of_byte(s, b) <= s.len(),
        byte_of_cp(s, cp_of_byte(s, b)) == b,
{
    broadcast use encode_utf8_valid_utf8;

    let bytes = encode_utf8(s);
    lemma_encode_prefix(s, 0);
    valid_utf8_split(bytes, b);
    decode_utf8_split(bytes, b);
    encode_utf8_decode_utf8(s);
    let k = cp_of_byte(s, b);
    assert(s =~= decode_utf8(bytes.subrange(0, b)) + decode_utf8(
        bytes.subrange(b, bytes.len() as int),
    ));
    assert(s.subrange(0, k) =~= decode_utf8(bytes.subrange(0, b)));
    lemma_byte_of_cp_is_encode_len(s, k);
    decode_utf8_encode_utf8(bytes.subrange(0, b));
}

/// Number of bytes of the UTF-8 encoding of one character.
pub fn char_utf8_len(c: char) -> (n: usize)
    ensures
        n as int == char_bytes(c),
{
    proof {
        char_is_scalar(c);
    }
    let u = c as u32;
    if u < 0x80 {
        1
    } else if u < 0x800 {
        2
    } else if u < 0x10000 {
        3
    } else {
        4
    }
}

/// Translating byte offsets back to codepoint indices preserves order on
/// codepoint boundaries.
pub proof fn lemma_cp_of_byte_mono(s: Seq<char>, b1: int, b2: int)
    requires
        0 <= b1 <= byte_len(s),
        0 <= b2 <= byte_len(s),
        boundary(s, b1),
        boundary(s, b2),
        b1 <= b2,
    ensures
        cp_of_byte(s, b1) <= cp_of_byte(s, b2),
{
    lemma_boundary_byte_of_cp(s, b1);
    lemma_boundary_byte_of_cp(s, b2);
    if cp_of_byte(s, b1) > cp_of_byte(s, b2) {
        lemma_byte_of_cp_mono(s, cp_of_byte(s, b2), cp_of_byte(s, b1));
    }
}

/// Relies on `str::len` together with Rust's guarantee that no allocation
/// exceeds `isize::MAX` bytes: the byte length of a string slice is its
/// UTF-8 encoded length and always fits in `usize`.
#[verifier::external_body]
fn str_byte_len(s: &str) -> (n: usize)
    ensures
        n as int == byte_len(s@),
{
    s.len()
}

/// Builds the two offset maps for `haystack` in one scan over its
/// characters.
///
/// The first array maps each byte offset that is a codepoint boundary to its
/// codepoint index, with the sentinel `usize::MAX` at every byte offset that
/// is not a boundary; the second maps each codepoint index to the byte
/// offset where that codepoint starts.  Both arrays carry one entry past the
/// end of the text, so that exclusive span ends translate too.
pub fn get_byte_to_code_point_and_reverse(haystack: &str) -> (r: (Vec<usize>, Vec<usize>))
    ensures
        r.0@.len() == byte_len(haystack@) + 1,
        r.1@.len() == byte_len(haystack@) + 1,
        forall|c: int|
            0 <= c <= haystack@.len() ==> #[trigger] r.1@[c] as int == byte_of_cp(haystack@, c),
        forall|b: int|
            0 <= b <= byte_len(haystack@) && boundary(haystack@, b) ==> #[trigger] r.0@[b] as int
                == cp_of_byte(haystack@, b),
        forall|b: int|
            0 <= b <= byte_len(haystack@) && !boundary(haystack@, b) ==> #[trigger] r.0@[b]
                == usize::MAX,
        forall|c: int|
            haystack@.len() < c <= byte_len(haystack@) ==> #[trigger] r.1@[c] == usize::MAX,
        forall|c: int|
            0 <= c <= haystack@.len() ==> #[trigger] r.0@[r.1@[c] as int] as int == c,
{
    let ghost s = haystack@;
    let total = str_byte_len(haystack);
    let mut byte_to_code_point: Vec<usize> = Vec::new();
    let mut code_point_to_byte: Vec<usize> = Vec::new();
    let mut b: usize = 0;
    let mut k: usize = 0;
    proof {
        lemma_encode_prefix(s, 0);
    }
    for c in it: haystack.chars()
        invariant
            it.seq() == s,
            k == it.index(),
            b as int == byte_of_cp(s, k as int),
            total as int == byte_len(s),
            code_point_to_byte@.len() == k as int,
            byte_to_code_point@.len() == b as int,
            forall|j: int|
                0 <= j < k as int ==> #[trigger] code_point_to_byte@[j] as int == byte_of_cp(s, j),
            forall|bb: int|
                0 <= bb < b as int && boundary(s, bb) ==> #[trigger] byte_to_code_point@[bb] as int
                    == cp_of_byte(s, bb),
            forall|bb: int|
                0 <= bb < b as int && !boundary(s, bb) ==> #[trigger] byte_to_code_point@[bb]
                    == usize::MAX,
    {
        proof {
            assert(k < s.len());
            lemma_byte_of_cp_mono(s, 0, s.len() as int);
            lemma_byte_of_cp_mono(s, k as int + 1, s.len() as int);
            lemma_byte_of_cp_boundary(s, k as int);
            lemma_char_bytes_range(s[k as int]);
            lemma_encode_prefix(s, s.len() as int);
        }
        let w = char_utf8_len(c);
        code_point_to_byte.push(b);
        byte_to_code_point.push(k);
        let ghost old_b = b as int;
        let mut filled: usize = 1;
        while filled < w
            invariant
                1 <= filled as int <= w as int,
                w as int == char_bytes(s[k as int]),
                k < s.len(),
                0 <= old_b,
                old_b == byte_of_cp(s, k as int),
                old_b + w as int == byte_of_cp(s, k as int + 1) <= byte_len(s) <= usize::MAX,
                byte_to_code_point@.len() == old_b + filled as int,
                forall|bb: int|
                    0 <= bb < old_b && boundary(s, bb) ==> #[trigger] byte_to_code_point@[bb] as int
                        == cp_of_byte(s, bb),
                forall|bb: int|
                    0 <= bb < old_b && !boundary(s, bb) ==> #[trigger] byte_to_code_point@[bb]
                        == usize::MAX,
                boundary(s, old_b),
                byte_to_code_point@[old_b] as int == cp_of_byte(s, old_b),
                forall|bb: int|
                    old_b < bb < old_b + filled as int ==> #[trigger] byte_to_code_point@[bb]
                        == usize::MAX,
            decreases w - filled,
        {
            let ghost prev = byte_to_code_point@;
            byte_to_code_point.push(usize::MAX);
            proof {
                assert(byte_to_code_point@[old_b] == prev[old_b]);
                assert forall|bb: int| old_b < bb < old_b + filled as int + 1 implies #[trigger]
                byte_to_code_point@[bb] == usize::MAX by {
                    if bb < old_b + filled as int {
                        assert(byte_to_code_point@[bb] == prev[bb]);
                    } else {
                        assert(bb == prev.len());
                    }
                }
            }
            filled = filled + 1;
        }
        proof {
            // No codepoint starts strictly inside this character's encoding,
            // so the padded positions are not boundaries.
            assert forall|bb: int| old_b < bb < old_b + w as int implies !boundary(s, bb) by {
                if boundary(s, bb) {
                    lemma_encode_prefix(s, s.len() as int);
                    lemma_boundary_byte_of_cp(s, bb);
                    let cpb = cp_of_byte(s, bb);
                    if cpb <= k as int {
                        lemma_byte_of_cp_mono(s, cpb, k as int);
                    } else {
                        lemma_byte_of_cp_mono(s, k as int + 1, cpb);
                    }
                }
            }
        }
        b = b + w;
        k = k + 1;
    }
    proof {
        assert(k as int == s.len());
        assert(b as int == byte_len(s));
        lemma_byte_of_cp_mono(s, 0, s.len() as int);
        lemma_byte_of_cp_boundary(s, s.len() as int);
        lemma_encode_prefix(s, s.len() as int);
        broadcast use encode_utf8_valid_utf8;

        is_char_boundary_start_end_of_seq(encode_utf8(s));
    }
    byte_to_code_point.push(k);
    code_point_to_byte.push(b);
    while code_point_to_byte.len() < byte_to_code_point.len()
        invariant
            byte_to_code_point@.len() == byte_len(s) + 1,
            s.len() + 1 <= code_point_to_byte@.len() <= byte_len(s) + 1,
            forall|j: int|
                0 <= j <= s.len() ==> #[trigger] code_point_to_byte@[j] as int == byte_of_cp(s, j),
            forall|j: int|
                s.len() < j < code_point_to_byte@.len() ==> #[trigger] code_point_to_byte@[j]
                    == usize::MAX,
        decreases byte_len(s) + 1 - code_point_to_byte@.len(),
    {
        code_point_to_byte.push(usize::MAX);
    }
    proof {
        assert forall|c: int| 0 <= c <= s.len() implies #[trigger] byte_to_code_point@[
            code_point_to_byte@[c] as int
        ] as int == c by {
            lemma_byte_of_cp_boundary(s, c);
            lemma_byte_of_cp_mono(s, c, s.len() as int);
            lemma_encode_prefix(s, c);
        }
    }
    (byte_to_code_point, code_point_to_byte)
}

/// Builds only the byte-offset-to-codepoint-index map for `haystack`.
pub fn get_byte_to_code_point(haystack: &str) -> (r: Vec<usize>)
    ensures
        r@.len() == byte_len(haystack@) + 1,
        forall|b: int|
            0 <= b <= byte_len(haystack@) && boundary(haystack@, b) ==> #[trigger] r@[b] as int
                == cp_of_byte(haystack@, b),
        forall|b: int|
            0 <= b <= byte_len(haystack@) && !boundary(haystack@, b) ==> #[trigger] r@[b]
                == usize::MAX,
{
    let (byte_to_code_point, _code_point_to_byte) = get_byte_to_code_point_and_reverse(haystack);
    byte_to_code_point
}

} // verus!
