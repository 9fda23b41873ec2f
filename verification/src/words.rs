//! Pixel words in byte order: the unsigned value of each group of bytes of
//! a data block, big-endian (FITS) or little-endian (XISF), and the two's
//! complement reading of a word.
use vstd::prelude::*;

verus! {

/// 256 to the power `n`.
pub open spec fn byte_power(n: nat) -> nat
    decreases n,
{
    if n == 0 {
        1
    } else {
        256 * byte_power((n - 1) as nat)
    }
}

/// The unsigned value of bytes read most significant first.
pub open spec fn be_value(b: Seq<u8>) -> nat
    decreases b.len(),
{
    if b.len() == 0 {
        0
    } else {
        (be_value(b.drop_last()) * 256 + b.last()) as nat
    }
}

/// The unsigned value of bytes read least significant first.
pub open spec fn le_value(b: Seq<u8>) -> nat
    decreases b.len(),
{
    if b.len() == 0 {
        0
    } else {
        (b[0] + 256 * le_value(b.drop_first())) as nat
    }
}

/// Word `i` of `raw`, in groups of `size` bytes.
pub open spec fn word_bytes(raw: Seq<u8>, size: int, i: int) -> Seq<u8> {
    raw.subrange(i * size, i * size + size)
}

/// The two's complement value of a word of `bits` bits.
pub open spec fn signed_value(w: int, bits: nat) -> int {
    if w >= byte_power((bits / 8) as nat) / 2 {
        w - byte_power((bits / 8) as nat)
    } else {
        w
    }
}

/// `256^8` is `2^64`, and the powers below it fit a `u64`.
proof fn lemma_byte_powers()
    ensures
        byte_power(1) == 0x100,
        byte_power(2) == 0x1_0000,
        byte_power(4) == 0x1_0000_0000,
        byte_power(8) == 0x1_0000_0000_0000_0000,
{
    reveal_with_fuel(byte_power, 9);
}

/// Powers of 256 grow with the exponent.
proof fn lemma_byte_power_grows(a: nat, b: nat)
    requires
        a <= b,
    ensures
        byte_power(a) <= byte_power(b),
        byte_power(a) >= 1,
    decreases b,
{
    if a < b {
        lemma_byte_power_grows(a, (b - 1) as nat);
    } else if a > 0 {
        lemma_byte_power_grows((a - 1) as nat, (a - 1) as nat);
    }
}

/// A value of `n` bytes is below `256^n`.
proof fn lemma_be_value_bound(b: Seq<u8>)
    ensures
        be_value(b) < byte_power(b.len()),
    decreases b.len(),
{
    if b.len() > 0 {
        lemma_be_value_bound(b.drop_last());
        let p = byte_power((b.len() - 1) as nat);
        assert(be_value(b.drop_last()) + 1 <= p);
        assert((be_value(b.drop_last()) + 1) * 256 <= p * 256) by (nonlinear_arith)
            requires
                be_value(b.drop_last()) + 1 <= p,
        ;
    }
}

/// A value of `n` bytes is below `256^n`.
proof fn lemma_le_value_bound(b: Seq<u8>)
    ensures
        le_value(b) < byte_power(b.len()),
    decreases b.len(),
{
    if b.len() > 0 {
        lemma_le_value_bound(b.drop_first());
        let p = byte_power((b.len() - 1) as nat);
        assert(le_value(b.drop_first()) + 1 <= p);
        assert(256 * (le_value(b.drop_first()) + 1) <= 256 * p) by (nonlinear_arith)
            requires
                le_value(b.drop_first()) + 1 <= p,
        ;
    }
}

/// The big-endian value of `size` bytes of `raw` from `start`.
fn be_word(raw: &[u8], start: usize, size: usize) -> (w: u64)
    requires
        1 <= size <= 8,
        start + size <= raw@.len(),
    ensures
        w == be_value(raw@.subrange(start as int, start + size)),
{
    let len = raw.len();
    let mut w: u64 = 0;
    let mut j: usize = 0;
    while j < size
        invariant
            len == raw@.len(),
            1 <= size <= 8,
            start + size <= raw@.len(),
            j <= size,
            w == be_value(raw@.subrange(start as int, start + j)),
        decreases size - j,
    {
        let ghost part = raw@.subrange(start as int, start + j + 1);
        assert(part.drop_last() =~= raw@.subrange(start as int, start + j));
        proof {
            lemma_be_value_bound(raw@.subrange(start as int, start + j));
            lemma_byte_power_grows(j as nat, 7);
            lemma_byte_powers();
            assert(w * 256 + 255 < 0x1_0000_0000_0000_0000) by (nonlinear_arith)
                requires
                    w < byte_power(j as nat),
                    byte_power(j as nat) <= byte_power(7),
                    byte_power(8) == 256 * byte_power(7),
                    byte_power(8) == 0x1_0000_0000_0000_0000,
            ;
        }
        w = w * 256 + raw[start + j] as u64;
        j = j + 1;
    }
    w
}

/// The little-endian value of `size` bytes of `raw` from `start`.
fn le_word(raw: &[u8], start: usize, size: usize) -> (w: u64)
    requires
        1 <= size <= 8,
        start + size <= raw@.len(),
    ensures
        w == le_value(raw@.subrange(start as int, start + size)),
{
    let len = raw.len();
    let mut w: u64 = 0;
    let mut j: usize = size;
    while j > 0
        invariant
            len == raw@.len(),
            1 <= size <= 8,
            start + size <= raw@.len(),
            j <= size,
            w == le_value(raw@.subrange(start + j, start + size)),
        decreases j,
    {
        let ghost part = raw@.subrange(start + j - 1, start + size);
        assert(part.drop_first() =~= raw@.subrange(start + j, start + size));
        proof {
            lemma_le_value_bound(raw@.subrange(start + j, start + size));
            lemma_byte_power_grows((size - j) as nat, 7);
            lemma_byte_powers();
            assert(w * 256 + 255 < 0x1_0000_0000_0000_0000) by (nonlinear_arith)
                requires
                    w < byte_power((size - j) as nat),
                    byte_power((size - j) as nat) <= byte_power(7),
                    byte_power(8) == 256 * byte_power(7),
                    byte_power(8) == 0x1_0000_0000_0000_0000,
            ;
        }
        w = raw[start + j - 1] as u64 + 256 * w;
        j = j - 1;
    }
    w
}

/// The words of a big-endian data block, `size` bytes each; bytes after the
/// last whole word are ignored.
pub fn be_words(raw: &[u8], size: usize) -> (r: Vec<u64>)
    requires
        1 <= size <= 8,
    ensures
        r@.len() == raw@.len() as int / size as int,
        forall|i: int|
            0 <= i < r@.len() ==> r@[i] == be_value(#[trigger] word_bytes(raw@, size as int, i)),
{
    let n = raw.len() / size;
    let mut r: Vec<u64> = Vec::new();
    let mut i: usize = 0;
    let len = raw.len();
    while i < n
        invariant
            len == raw@.len(),
            1 <= size <= 8,
            n == raw@.len() as int / size as int,
            i <= n,
            r@.len() == i,
            forall|k: int|
                0 <= k < i ==> r@[k] == be_value(#[trigger] word_bytes(raw@, size as int, k)),
        decreases n - i,
    {
        assert((i + 1) * size <= raw@.len()) by (nonlinear_arith)
            requires
                i < n,
                n == raw@.len() as int / size as int,
                size >= 1,
        ;
        assert(i * size + size == (i + 1) * size) by (nonlinear_arith);
        let w = be_word(raw, i * size, size);
        r.push(w);
        i = i + 1;
    }
    r
}

/// The first `n` words of a little-endian data block, `size` bytes each
/// (fewer when the block holds fewer whole words).
pub fn le_words(raw: &[u8], size: usize, n: usize) -> (r: Vec<u64>)
    requires
        1 <= size <= 8,
    ensures
        r@.len() == if raw@.len() as int / size as int <= n { raw@.len() as int / size as int } else { n as int },
        forall|i: int|
            0 <= i < r@.len() ==> r@[i] == le_value(#[trigger] word_bytes(raw@, size as int, i)),
{
    let whole = raw.len() / size;
    let m = if whole <= n { whole } else { n };
    let mut r: Vec<u64> = Vec::new();
    let mut i: usize = 0;
    let len = raw.len();
    while i < m
        invariant
            len == raw@.len(),
            1 <= size <= 8,
            whole == raw@.len() as int / size as int,
            m <= whole,
            i <= m,
            r@.len() == i,
            forall|k: int|
                0 <= k < i ==> r@[k] == le_value(#[trigger] word_bytes(raw@, size as int, k)),
        decreases m - i,
    {
        assert((i + 1) * size <= raw@.len()) by (nonlinear_arith)
            requires
                i < m,
                m <= whole,
                whole == raw@.len() as int / size as int,
                size >= 1,
        ;
        assert(i * size + size == (i + 1) * size) by (nonlinear_arith);
        let w = le_word(raw, i * size, size);
        r.push(w);
        i = i + 1;
    }
    r
}

/// The two's complement reading of the low 16 or 32 bits of a word.
pub fn signed_word(w: u64, size: usize) -> (v: i64)
    requires
        size == 2 || size == 4,
    ensures
        v == signed_value(w as int % byte_power(size as nat) as int, (size * 8) as nat),
{
    proof {
        lemma_byte_powers();
        assert((size * 8) as nat / 8 == size);
    }
    if size == 2 {
        let low = w % 0x1_0000;
        if low >= 0x8000 {
            low as i64 - 0x1_0000
        } else {
            low as i64
        }
    } else {
        let low = w % 0x1_0000_0000;
        if low >= 0x8000_0000 {
            low as i64 - 0x1_0000_0000
        } else {
            low as i64
        }
    }
}

} // verus!
