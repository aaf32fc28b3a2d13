//! Word-granularity packing rules of the tracee memory layer.
//!
//! The tracer moves data in and out of the child's address space one 64-bit
//! word at a time.  This module fixes how bytes are laid out in those words:
//! least-significant byte first, with the final partial word zero-padded on
//! writes and truncated to the residual length on reads.  The embedding
//! program performs the per-word transfers; every byte-level decision is
//! made and proved here.

use vstd::prelude::*;
use crate::errors::PtraceError;
use crate::MAX_BUFFER_SIZE;

verus! {

/// Longest C string the memory layer extracts, in bytes.
pub const MAX_STRING_LENGTH: usize = 4096;

/// Byte `i` of a 64-bit word, least-significant byte first.
pub open spec fn word_byte(w: u64, i: int) -> u8
    recommends
        0 <= i < 8,
{
    ((w >> ((8 * i) as u64)) & 0xff) as u8
}

/// Byte `k` of `data`, or the zero pad byte past its end.
pub open spec fn byte_or_zero(data: Seq<u8>, k: int) -> u8 {
    if 0 <= k < data.len() {
        data[k]
    } else {
        0
    }
}

/// How many words carry `count` bytes.
pub open spec fn words_for(count: int) -> int {
    (count + 7) / 8
}

/// `words` carries exactly the bytes of `data`, least-significant byte
/// first within each word, zero-padded past the end of `data`.
pub open spec fn packs(data: Seq<u8>, words: Seq<u64>) -> bool {
    &&& words.len() == words_for(data.len() as int)
    &&& forall|i: int, j: int|
        0 <= i < words.len() && 0 <= j < 8 ==> #[trigger] word_byte(words[i], j) == byte_or_zero(
            data,
            8 * i + j,
        )
}

/// The first `count` bytes carried by `words`, least-significant byte
/// first within each word.
pub open spec fn spec_assemble(words: Seq<u64>, count: int) -> Seq<u8>
    recommends
        0 <= count <= 8 * words.len(),
{
    Seq::new(count as nat, |k: int| word_byte(words[k / 8], k % 8))
}

/// Byte `k` of `data`, or zero past its end.
fn byte_at(data: &Vec<u8>, k: usize) -> (b: u8)
    ensures
        b == byte_or_zero(data@, k as int),
{
    if k < data.len() {
        data[k]
    } else {
        0
    }
}

/// Byte `j` of word `w`, least-significant byte first.
pub fn word_byte_at(w: u64, j: usize) -> (b: u8)
    requires
        j < 8,
    ensures
        b == word_byte(w, j as int),
{
    let sh: u64 = (8 * j) as u64;
    ((w >> sh) & 0xff) as u8
}

/// One word packed from up to eight bytes of `data` starting at `base`,
/// zero-padded past the end of `data`.
fn pack_word_at(data: &Vec<u8>, base: usize) -> (w: u64)
    requires
        base <= usize::MAX - 7,
    ensures
        forall|j: int| 0 <= j < 8 ==> word_byte(w, j) == byte_or_zero(data@, base + j),
{
    let b0 = byte_at(data, base);
    let b1 = byte_at(data, base + 1);
    let b2 = byte_at(data, base + 2);
    let b3 = byte_at(data, base + 3);
    let b4 = byte_at(data, base + 4);
    let b5 = byte_at(data, base + 5);
    let b6 = byte_at(data, base + 6);
    let b7 = byte_at(data, base + 7);
    let w: u64 = (b0 as u64) | ((b1 as u64) << 8u64) | ((b2 as u64) << 16u64) | ((b3 as u64)
        << 24u64) | ((b4 as u64) << 32u64) | ((b5 as u64) << 40u64) | ((b6 as u64) << 48u64) | (
    (b7 as u64) << 56u64);
    proof {
        assert(((w >> 0u64) & 0xff) as u8 == b0 && ((w >> 8u64) & 0xff) as u8 == b1 && ((w
            >> 16u64) & 0xff) as u8 == b2 && ((w >> 24u64) & 0xff) as u8 == b3 && ((w >> 32u64)
            & 0xff) as u8 == b4 && ((w >> 40u64) & 0xff) as u8 == b5 && ((w >> 48u64) & 0xff) as u8
            == b6 && ((w >> 56u64) & 0xff) as u8 == b7) by (bit_vector)
            requires
                w == (b0 as u64) | ((b1 as u64) << 8u64) | ((b2 as u64) << 16u64) | ((b3 as u64)
                    << 24u64) | ((b4 as u64) << 32u64) | ((b5 as u64) << 40u64) | ((b6 as u64)
                    << 48u64) | ((b7 as u64) << 56u64),
        ;
        assert forall|j: int| 0 <= j < 8 implies word_byte(w, j) == byte_or_zero(
            data@,
            base + j,
        ) by {
            if j == 0 {
                assert(word_byte(w, 0) == ((w >> 0u64) & 0xff) as u8);
            } else if j == 1 {
                assert(word_byte(w, 1) == ((w >> 8u64) & 0xff) as u8);
            } else if j == 2 {
                assert(word_byte(w, 2) == ((w >> 16u64) & 0xff) as u8);
            } else if j == 3 {
                assert(word_byte(w, 3) == ((w >> 24u64) & 0xff) as u8);
            } else if j == 4 {
                assert(word_byte(w, 4) == ((w >> 32u64) & 0xff) as u8);
            } else if j == 5 {
                assert(word_byte(w, 5) == ((w >> 40u64) & 0xff) as u8);
            } else if j == 6 {
                assert(word_byte(w, 6) == ((w >> 48u64) & 0xff) as u8);
            } else {
                assert(word_byte(w, 7) == ((w >> 56u64) & 0xff) as u8);
            }
        }
    }
    w
}

/// Packs `data` into store-ready words: least-significant byte first, the
/// final partial word zero-padded.
pub fn pack_words(data: &Vec<u8>) -> (r: Vec<u64>)
    requires
        data@.len() <= MAX_BUFFER_SIZE,
    ensures
        packs(data@, r@),
{
    let n_words: usize = (data.len() + 7) / 8;
    let mut r: Vec<u64> = Vec::new();
    let mut i: usize = 0;
    while i < n_words
        invariant
            data@.len() <= MAX_BUFFER_SIZE,
            n_words == words_for(data@.len() as int),
            i <= n_words,
            r@.len() == i,
            forall|i2: int, j: int|
                0 <= i2 < i && 0 <= j < 8 ==> #[trigger] word_byte(r@[i2], j) == byte_or_zero(
                    data@,
                    8 * i2 + j,
                ),
        decreases n_words - i,
    {
        let w = pack_word_at(data, 8 * i);
        r.push(w);
        i = i + 1;
    }
    r
}

/// The first `count` bytes carried by `words`, the final word truncated to
/// the residual length.
pub fn assemble_bytes(words: &Vec<u64>, count: usize) -> (r: Vec<u8>)
    requires
        count <= MAX_BUFFER_SIZE,
        words@.len() == words_for(count as int),
    ensures
        r@ == spec_assemble(words@, count as int),
{
    let mut r: Vec<u8> = Vec::new();
    let mut k: usize = 0;
    while k < count
        invariant
            count <= MAX_BUFFER_SIZE,
            words@.len() == words_for(count as int),
            k <= count,
            r@.len() == k,
            forall|t: int| 0 <= t < k ==> r@[t] == word_byte(words@[t / 8], t % 8),
        decreases count - k,
    {
        assert(k / 8 < words@.len());
        let b = word_byte_at(words[k / 8], k % 8);
        r.push(b);
        k = k + 1;
    }
    proof {
        assert(r@ =~= spec_assemble(words@, count as int));
    }
    r
}

/// Index of the first zero byte of `w` at or after byte `j`, or 8 when
/// no zero byte follows.
pub open spec fn first_nul_from(w: u64, j: int) -> int
    recommends
        0 <= j <= 8,
    decreases 8 - j,
{
    if j >= 8 {
        8
    } else if word_byte(w, j) == 0 {
        j
    } else {
        first_nul_from(w, j + 1)
    }
}

/// Index of the first zero byte of `w`, or 8 when `w` has none.
pub open spec fn first_nul(w: u64) -> int {
    first_nul_from(w, 0)
}

/// The first `n` bytes of word `w`, least-significant byte first.
pub open spec fn word_prefix(w: u64, n: int) -> Seq<u8>
    recommends
        0 <= n <= 8,
{
    Seq::new(n as nat, |j: int| word_byte(w, j))
}

proof fn lemma_nul_from_lower(w: u64, j: int)
    requires
        0 <= j <= 8,
    ensures
        first_nul_from(w, j) >= j,
    decreases 8 - j,
{
    if j < 8 {
        lemma_nul_from_lower(w, j + 1);
    }
}

proof fn lemma_nul_scan(w: u64, j: int)
    requires
        0 <= j <= 8,
        forall|t: int| 0 <= t < j ==> word_byte(w, t) != 0,
    ensures
        first_nul(w) == first_nul_from(w, j),
    decreases j,
{
    if j > 0 {
        lemma_nul_scan(w, j - 1);
    }
}

/// What one word contributed to a C-string extraction.
#[derive(Clone, Copy, Debug, PartialEq, Eq, Structural)]
pub enum ScanStep {
    /// A terminator was found; the string is complete.
    Done,
    /// No terminator yet; the next word is needed.
    More,
    /// The string exceeds the length cap.
    TooLong,
}

/// Feeds one word of tracee memory into a C-string extraction.  Bytes are
/// taken least-significant first and appended to `acc` until the first zero
/// byte; the scan stops short once `acc` holds the length cap.
pub fn cstring_step(acc: &mut Vec<u8>, word: u64) -> (r: ScanStep)
    requires
        old(acc)@.len() <= MAX_STRING_LENGTH,
    ensures
        ({
            let k = first_nul(word);
            let room = MAX_STRING_LENGTH - old(acc)@.len();
            &&& (k <= room ==> final(acc)@ == old(acc)@ + word_prefix(word, k))
            &&& (k > room ==> final(acc)@ == old(acc)@ + word_prefix(word, room))
            &&& r == (if k > room {
                ScanStep::TooLong
            } else if k < 8 {
                ScanStep::Done
            } else {
                ScanStep::More
            })
        }),
        final(acc)@.len() <= MAX_STRING_LENGTH,
{
    let ghost old_acc = acc@;
    let mut j: usize = 0;
    while j < 8
        invariant
            old_acc == old(acc)@,
            old_acc.len() <= MAX_STRING_LENGTH,
            j <= 8,
            acc@ == old_acc + word_prefix(word, j as int),
            acc@.len() <= MAX_STRING_LENGTH,
            forall|t: int| 0 <= t < j ==> word_byte(word, t) != 0,
        decreases 8 - j,
    {
        let b = word_byte_at(word, j);
        if b == 0 {
            proof {
                lemma_nul_scan(word, j as int);
                assert(first_nul(word) == j as int);
            }
            return ScanStep::Done;
        }
        if acc.len() >= MAX_STRING_LENGTH {
            proof {
                lemma_nul_scan(word, j as int);
                lemma_nul_from_lower(word, j as int + 1);
                assert(first_nul_from(word, j as int) == first_nul_from(word, j as int + 1));
                assert(first_nul(word) > j as int);
                assert(j as int == MAX_STRING_LENGTH - old_acc.len());
            }
            return ScanStep::TooLong;
        }
        acc.push(b);
        proof {
            assert(acc@ =~= old_acc + word_prefix(word, j as int + 1));
        }
        j = j + 1;
    }
    proof {
        lemma_nul_scan(word, 8);
        assert(first_nul(word) == 8);
    }
    ScanStep::More
}

/// How many words a C-string extraction fetches at most before giving up.
pub open spec fn spec_string_word_limit() -> int {
    MAX_STRING_LENGTH as int / 8 + 1
}

/// Validates the address of a C-string extraction and gives the number of
/// words to fetch at most before the extraction fails as too long.
pub fn string_plan(addr: u64) -> (r: Result<usize, PtraceError>)
    ensures
        addr == 0 <==> (r matches Err(PtraceError::InvalidAddress)),
        addr != 0 <==> (r matches Ok(n) && n == spec_string_word_limit()),
{
    if addr == 0 {
        return Err(PtraceError::InvalidAddress);
    }
    Ok(MAX_STRING_LENGTH / 8 + 1)
}

/// Validates the address and size of a transfer out of the child and gives
/// the number of words to fetch: a null address and an over-cap count are
/// rejected before any word moves.
pub fn read_plan(addr: u64, count: usize) -> (r: Result<usize, PtraceError>)
    ensures
        addr == 0 ==> (r matches Err(PtraceError::InvalidAddress)),
        addr != 0 && count > MAX_BUFFER_SIZE ==> (r matches Err(PtraceError::BufferTooLarge)),
        addr != 0 && count <= MAX_BUFFER_SIZE ==> (r matches Ok(n) && n == words_for(
            count as int,
        )),
{
    if addr == 0 {
        return Err(PtraceError::InvalidAddress);
    }
    if count > MAX_BUFFER_SIZE {
        return Err(PtraceError::BufferTooLarge);
    }
    Ok((count + 7) / 8)
}

/// Validates the address and size of a transfer into the child: a null
/// address and over-cap data are rejected before any word moves.
pub fn write_plan(addr: u64, len: usize) -> (r: Result<(), PtraceError>)
    ensures
        addr == 0 ==> (r matches Err(PtraceError::InvalidAddress)),
        addr != 0 && len > MAX_BUFFER_SIZE ==> (r matches Err(PtraceError::BufferTooLarge)),
        addr != 0 && len <= MAX_BUFFER_SIZE ==> (r matches Ok(u)),
{
    if addr == 0 {
        return Err(PtraceError::InvalidAddress);
    }
    if len > MAX_BUFFER_SIZE {
        return Err(PtraceError::BufferTooLarge);
    }
    Ok(())
}

/// Bytes written and read back through store-ready words come back
/// unchanged: the zero padding of the final word is never read back.
pub proof fn lemma_pack_then_assemble_round_trip(data: Seq<u8>, words: Seq<u64>)
    requires
        packs(data, words),
    ensures
        spec_assemble(words, data.len() as int) == data,
{
    assert forall|k: int| 0 <= k < data.len() implies word_byte(words[k / 8], k % 8) == data[k] by {
        let i = k / 8;
        let j = k % 8;
        assert(8 * i + j == k);
        assert(0 <= i < words.len());
        assert(word_byte(words[i], j) == byte_or_zero(data, k));
    }
    assert(spec_assemble(words, data.len() as int) =~= data);
}

} // verus!
