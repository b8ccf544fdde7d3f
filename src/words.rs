use vstd::prelude::*;

verus! {

/// The 32-bit word stored little-endian in four bytes.
pub open spec fn le_word(b0: u8, b1: u8, b2: u8, b3: u8) -> u32 {
    (b0 as u32) | ((b1 as u32) << 8u32) | ((b2 as u32) << 16u32) | ((b3 as u32) << 24u32)
}

/// Byte `k` (0 to 3) of `w`, least significant first.
pub open spec fn word_byte(w: u32, k: int) -> u8 {
    if k == 0 {
        (w & 0xff) as u8
    } else if k == 1 {
        ((w >> 8u32) & 0xff) as u8
    } else if k == 2 {
        ((w >> 16u32) & 0xff) as u8
    } else {
        (w >> 24u32) as u8
    }
}

/// The words that a byte sequence holds, read four bytes at a time; a tail
/// shorter than a word is not part of any word.
pub open spec fn words_of(s: Seq<u8>) -> Seq<u32> {
    Seq::new(
        s.len() / 4,
        |i: int| le_word(s[4 * i], s[4 * i + 1], s[4 * i + 2], s[4 * i + 3]),
    )
}

/// The little-endian bytes of a sequence of words.
pub open spec fn bytes_of_words(ws: Seq<u32>) -> Seq<u8> {
    Seq::new(4 * ws.len(), |j: int| word_byte(ws[j / 4], j % 4))
}

pub proof fn lemma_word_round_trip(w: u32)
    ensures
        le_word(word_byte(w, 0), word_byte(w, 1), word_byte(w, 2), word_byte(w, 3)) == w,
{
    assert(((w & 0xff) as u8 as u32) | ((((w >> 8u32) & 0xff) as u8 as u32) << 8u32) | (((
    (w >> 16u32) & 0xff) as u8 as u32) << 16u32) | (((w >> 24u32) as u8 as u32) << 24u32) == w)
        by (bit_vector);
}

pub proof fn lemma_div4(i: int, k: int)
    requires
        0 <= i,
        0 <= k < 4,
    ensures
        (4 * i + k) / 4 == i,
        (4 * i + k) % 4 == k,
{
    assert((4 * i + k) / 4 == i && (4 * i + k) % 4 == k) by (nonlinear_arith)
        requires
            0 <= i,
            0 <= k < 4,
    ;
}

/// Reading back the bytes of a word sequence gives the same words.
pub proof fn lemma_words_of_bytes(ws: Seq<u32>)
    ensures
        words_of(bytes_of_words(ws)) == ws,
{
    let b = bytes_of_words(ws);
    assert(b.len() / 4 == ws.len()) by {
        lemma_div4(ws.len() as int, 0);
    }
    assert forall|i: int| 0 <= i < ws.len() implies #[trigger] words_of(b)[i] == ws[i] by {
        lemma_div4(i, 0);
        lemma_div4(i, 1);
        lemma_div4(i, 2);
        lemma_div4(i, 3);
        assert(4 * i + 3 < 4 * ws.len()) by (nonlinear_arith)
            requires
                0 <= i < ws.len(),
        ;
        lemma_word_round_trip(ws[i]);
    }
    assert(words_of(b) =~= ws);
}

pub fn byte_of_word(w: u32, k: usize) -> (r: u8)
    requires
        k < 4,
    ensures
        r == word_byte(w, k as int),
{
    if k == 0 {
        (w & 0xff) as u8
    } else if k == 1 {
        ((w >> 8u32) & 0xff) as u8
    } else if k == 2 {
        ((w >> 16u32) & 0xff) as u8
    } else {
        (w >> 24u32) as u8
    }
}

pub fn word_from_bytes(b0: u8, b1: u8, b2: u8, b3: u8) -> (r: u32)
    ensures
        r == le_word(b0, b1, b2, b3),
{
    (b0 as u32) | ((b1 as u32) << 8u32) | ((b2 as u32) << 16u32) | ((b3 as u32) << 24u32)
}

/// Encodes words as little-endian bytes, four per word.
pub fn encode_words(ws: &Vec<u32>) -> (r: Vec<u8>)
    requires
        4 * ws@.len() <= usize::MAX,
    ensures
        r@ == bytes_of_words(ws@),
{
    let mut out: Vec<u8> = Vec::new();
    let mut i: usize = 0;
    while i < ws.len()
        invariant
            i <= ws@.len(),
            4 * ws@.len() <= usize::MAX,
            out@.len() == 4 * i,
            forall|j: int| 0 <= j < 4 * i ==> #[trigger] out@[j] == word_byte(ws@[j / 4], j % 4),
        decreases ws@.len() - i,
    {
        let w = ws[i];
        let mut k: usize = 0;
        while k < 4
            invariant
                i < ws@.len(),
                w == ws@[i as int],
                k <= 4,
                out@.len() == 4 * i + k,
                forall|j: int| 0 <= j < 4 * i ==> #[trigger] out@[j] == word_byte(ws@[j / 4], j % 4),
                forall|m: int| 0 <= m < k ==> #[trigger] out@[4 * i + m] == word_byte(w, m),
            decreases 4 - k,
        {
            out.push(byte_of_word(w, k));
            k = k + 1;
        }
        proof {
            assert forall|j: int| 0 <= j < 4 * (i + 1) implies #[trigger] out@[j] == word_byte(
                ws@[j / 4],
                j % 4,
            ) by {
                if j >= 4 * i {
                    lemma_div4(i as int, j - 4 * i);
                    assert(out@[4 * i + (j - 4 * i)] == word_byte(w, j - 4 * i));
                }
            }
        }
        i = i + 1;
    }
    assert(out@ =~= bytes_of_words(ws@));
    out
}

/// Decodes the whole words of a byte sequence, little-endian.
pub fn decode_words(b: &[u8]) -> (r: Vec<u32>)
    ensures
        r@ == words_of(b@),
{
    let len: usize = b.len();
    let n: usize = len / 4;
    let mut out: Vec<u32> = Vec::new();
    let mut i: usize = 0;
    while i < n
        invariant
            n == b@.len() / 4,
            len == b@.len(),
            i <= n,
            out@.len() == i,
            forall|j: int| 0 <= j < i ==> #[trigger] out@[j] == words_of(b@)[j],
        decreases n - i,
    {
        assert(4 * i + 3 < b@.len()) by (nonlinear_arith)
            requires
                i < n,
                n == b@.len() / 4,
        ;
        let base: usize = 4 * i;
        out.push(word_from_bytes(b[base], b[base + 1], b[base + 2], b[base + 3]));
        i = i + 1;
    }
    assert(out@ =~= words_of(b@));
    out
}

} // verus!
