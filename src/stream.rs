use crate::method::{PassKind, PassSpec};
use crate::prng::{prng_output, PrngKind};
use vstd::arithmetic::div_mod::{lemma_add_mod_noop, lemma_mod_twice};
use vstd::prelude::*;

verus! {

/// The size of one I/O buffer: 4 MiB.
pub const BUF: usize = 4194304;

/// The length of the pattern buffer: one I/O buffer and room to start a
/// chunk anywhere within a pattern of up to 16 bytes.
pub const BUF_LEN: usize = 4194320;

/// The pattern `p` repeated over `n` bytes.
pub open spec fn tile(p: Seq<u8>, n: nat) -> Seq<u8> {
    Seq::new(n, |i: int| p[i % p.len() as int])
}

/// The requests a generator has served before chunk `j` of a pass: one of
/// `BUF` bytes for each earlier chunk.
pub open spec fn block_requests(j: nat) -> Seq<nat> {
    Seq::new(j, |i: int| BUF as nat)
}

/// The stream a generator pass covers `n` bytes with: the first `n` bytes a
/// generator of kind `k` gives once seeded with `seed`.
pub open spec fn random_content(k: PrngKind, seed: Seq<u8>, n: nat) -> Seq<u8> {
    prng_output(k, seed, Seq::empty(), n)
}

/// The bytes a pass writes, or expects to read back, over a device of `n` bytes.
pub open spec fn pass_content(p: PassSpec, k: PrngKind, seed: Seq<u8>, n: nat) -> Seq<u8> {
    if p.kind == PassKind::Pattern || p.kind == PassKind::VerifyPattern {
        tile(p.pattern, n)
    } else {
        random_content(k, seed, n)
    }
}

/// The length of the chunk a pass moves at `offset` of a device of `size` bytes.
pub open spec fn chunk_spec(size: nat, offset: nat) -> nat {
    if size - offset < BUF {
        (size - offset) as nat
    } else {
        BUF as nat
    }
}

/// The length of the chunk a pass moves at `offset` of a device of `size` bytes.
pub fn chunk_len(size: u64, offset: u64) -> (r: usize)
    requires
        offset <= size,
    ensures
        r == chunk_spec(size as nat, offset as nat),
        r <= BUF,
{
    let remaining = size - offset;
    if remaining < BUF as u64 {
        remaining as usize
    } else {
        BUF
    }
}

/// Fills `buf` with the pattern `pattern` repeated from its first byte.
pub fn fill_pattern(buf: &mut Vec<u8>, pattern: &Vec<u8>)
    requires
        pattern@.len() >= 1,
    ensures
        final(buf)@ == tile(pattern@, old(buf)@.len()),
{
    let n = buf.len();
    let plen = pattern.len();
    let mut i: usize = 0;
    while i < n
        invariant
            n == buf@.len(),
            n == old(buf)@.len(),
            plen == pattern@.len(),
            plen >= 1,
            i <= n,
            forall|j: int| 0 <= j < i ==> buf@[j] == pattern@[j % plen as int],
        decreases n - i,
    {
        buf.set(i, pattern[i % plen]);
        i += 1;
    }
    assert(buf@ =~= tile(pattern@, n as nat));
}

/// Where a chunk at `offset` starts in a buffer holding `p` repeated from its
/// first byte, so that it continues the pattern across the device.
pub open spec fn pattern_start(p: Seq<u8>, offset: nat) -> nat {
    offset % p.len()
}

/// The bytes of the pattern buffer from `offset % p.len()` on are the
/// pattern as it stands at `offset` of the device.
pub proof fn lemma_pattern_chunk(p: Seq<u8>, buf_len: nat, n: nat, offset: nat, len: nat)
    requires
        1 <= p.len() <= 16,
        offset + len <= n,
        len + 16 <= buf_len,
    ensures
        pattern_start(p, offset) + len <= buf_len,
        tile(p, buf_len).subrange(pattern_start(p, offset) as int, (pattern_start(p, offset) + len) as int)
            =~= tile(p, n).subrange(offset as int, (offset + len) as int),
{
    let m = p.len() as int;
    let s = (offset % p.len()) as int;
    let a = tile(p, buf_len).subrange(s, s + len);
    let b = tile(p, n).subrange(offset as int, (offset + len) as int);
    assert forall|i: int| 0 <= i < len implies #[trigger] a[i] == b[i] by {
        lemma_add_mod_noop(offset as int, i, m);
        lemma_add_mod_noop(s, i, m);
        lemma_mod_twice(offset as int, m);
    }
}

/// The position of the first byte where `found` differs from the `len` bytes
/// of `expected` from `start` on, if any.
pub fn first_mismatch(expected: &Vec<u8>, start: usize, found: &Vec<u8>) -> (r: Option<usize>)
    requires
        start + found@.len() <= expected@.len(),
    ensures
        r is None <==> found@ == expected@.subrange(start as int, start + found@.len()),
        r is Some ==> {
            let i = r->0 as int;
            &&& 0 <= i < found@.len()
            &&& found@[i] != expected@[start + i]
            &&& forall|j: int| 0 <= j < i ==> found@[j] == expected@[start + j]
        },
{
    let n = found.len();
    let elen = expected.len();
    let mut i: usize = 0;
    while i < n
        invariant
            n == found@.len(),
            elen == expected@.len(),
            start + n <= elen,
            i <= n,
            forall|j: int| 0 <= j < i ==> found@[j] == expected@[start + j],
        decreases n - i,
    {
        if found[i] != expected[start + i] {
            return Some(i);
        }
        i += 1;
    }
    assert(found@ =~= expected@.subrange(start as int, start + n));
    None
}

} // verus!
