//! Small arithmetic facts about frame-major (interleaved) indexing.

use vstd::prelude::*;

verus! {

/// Index `f * n + c` of an interleaved buffer with `n` lanes splits back
/// into frame `f` and lane `c`.
pub proof fn lemma_interleaved_index(f: int, c: int, n: int)
    requires
        0 <= f,
        0 <= c < n,
    ensures
        (f * n + c) / n == f,
        (f * n + c) % n == c,
        0 <= f * n + c,
{
    vstd::arithmetic::div_mod::lemma_fundamental_div_mod_converse(f * n + c, n, f, c);
    assert(0 <= f * n) by (nonlinear_arith)
        requires
            0 <= f,
            0 < n,
    ;
}

/// The first `len / size` whole blocks of a buffer of `len` elements fit in it.
pub proof fn lemma_whole_blocks_fit(f: int, size: int, len: int)
    requires
        0 <= f < len / size,
        0 < size,
        0 <= len,
    ensures
        f * size + size <= len,
        0 <= f * size,
{
    vstd::arithmetic::div_mod::lemma_fundamental_div_mod(len, size);
    let q = len / size;
    assert(f * size + size <= q * size) by (nonlinear_arith)
        requires
            f + 1 <= q,
            0 < size,
    ;
    assert(q * size == size * q) by (nonlinear_arith);
    assert(len % size >= 0) by {
        vstd::arithmetic::div_mod::lemma_mod_bound(len, size);
    }
    assert(0 <= f * size) by (nonlinear_arith)
        requires
            0 <= f,
            0 < size,
    ;
}

/// A product of a block count bounded by `len / size` with the block size
/// stays within `len`.
pub proof fn lemma_block_count_product(q: int, size: int, len: int)
    requires
        0 <= q <= len / size,
        0 < size,
        0 <= len,
    ensures
        q * size <= len,
        0 <= q * size,
{
    vstd::arithmetic::div_mod::lemma_fundamental_div_mod(len, size);
    vstd::arithmetic::div_mod::lemma_mod_bound(len, size);
    assert(q * size <= (len / size) * size) by (nonlinear_arith)
        requires
            q <= len / size,
            0 < size,
    ;
    assert((len / size) * size == size * (len / size)) by (nonlinear_arith);
    assert(0 <= q * size) by (nonlinear_arith)
        requires
            0 <= q,
            0 < size,
    ;
}

} // verus!
