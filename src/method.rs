use crate::prng::text_is;
use vstd::prelude::*;

verus! {

/// The erasure methods of the catalog.
#[derive(Clone, Copy, Debug, PartialEq, Eq, Structural)]
pub enum WipeMethod {
    /// OPS-II: zeros, ones, random data, and a final blanking pass after all rounds.
    Ops2,
    /// DoD 5220.22-M: zeros, ones, random data.
    Dod,
    /// Gutmann: four random passes, 27 fixed patterns, four random passes.
    Gutmann,
    /// One random pass.
    Random,
    /// One pass of zeros.
    Zero,
}

/// What a pass does to the device.
#[derive(Clone, Copy, Debug, PartialEq, Eq, Structural)]
pub enum PassKind {
    /// Writes a repeating byte pattern.
    Pattern,
    /// Writes the generator's stream.
    Prng,
    /// Reads the device back and compares it with a repeating byte pattern.
    VerifyPattern,
    /// Reads the device back and compares it with the regenerated stream.
    VerifyPrng,
}

/// One pass of a schedule.
pub struct PassDesc {
    pub kind: PassKind,
    /// The repeating pattern of a pattern pass; empty for a generator pass.
    pub pattern: Vec<u8>,
    /// Whether this is the blanking pass that ends an OPS-II wipe.
    pub final_blank: bool,
}

/// The mathematical value of a pass.
pub struct PassSpec {
    pub kind: PassKind,
    pub pattern: Seq<u8>,
    pub final_blank: bool,
}

impl View for PassDesc {
    type V = PassSpec;

    open spec fn view(&self) -> PassSpec {
        PassSpec { kind: self.kind, pattern: self.pattern@, final_blank: self.final_blank }
    }
}

/// The values of a sequence of passes.
pub open spec fn pass_views(v: Seq<PassDesc>) -> Seq<PassSpec> {
    v.map_values(|p: PassDesc| p@)
}

/// Whether a pass writes to the device.
pub open spec fn is_write(p: PassSpec) -> bool {
    p.kind == PassKind::Pattern || p.kind == PassKind::Prng
}

/// A pass writing the repeating pattern `p`.
pub open spec fn pattern_pass(p: Seq<u8>) -> PassSpec {
    PassSpec { kind: PassKind::Pattern, pattern: p, final_blank: false }
}

/// A pass writing the generator's stream.
pub open spec fn prng_pass() -> PassSpec {
    PassSpec { kind: PassKind::Prng, pattern: Seq::empty(), final_blank: false }
}

/// The pass that checks what the write pass `p` wrote.
pub open spec fn verify_of(p: PassSpec) -> PassSpec {
    PassSpec {
        kind: if p.kind == PassKind::Pattern {
            PassKind::VerifyPattern
        } else {
            PassKind::VerifyPrng
        },
        ..p
    }
}

/// The 27 fixed three-byte patterns of the Gutmann method, in order.
pub open spec fn gutmann_patterns() -> Seq<Seq<u8>> {
    seq![
        seq![0x55u8, 0x55u8, 0x55u8], seq![0xAAu8, 0xAAu8, 0xAAu8],
        seq![0x92u8, 0x49u8, 0x24u8], seq![0x49u8, 0x24u8, 0x92u8],
        seq![0x24u8, 0x92u8, 0x49u8], seq![0x00u8, 0x00u8, 0x00u8],
        seq![0x11u8, 0x11u8, 0x11u8], seq![0x22u8, 0x22u8, 0x22u8],
        seq![0x33u8, 0x33u8, 0x33u8], seq![0x44u8, 0x44u8, 0x44u8],
        seq![0x55u8, 0x55u8, 0x55u8], seq![0x66u8, 0x66u8, 0x66u8],
        seq![0x77u8, 0x77u8, 0x77u8], seq![0x88u8, 0x88u8, 0x88u8],
        seq![0x99u8, 0x99u8, 0x99u8], seq![0xAAu8, 0xAAu8, 0xAAu8],
        seq![0xBBu8, 0xBBu8, 0xBBu8], seq![0xCCu8, 0xCCu8, 0xCCu8],
        seq![0xDDu8, 0xDDu8, 0xDDu8], seq![0xEEu8, 0xEEu8, 0xEEu8],
        seq![0xFFu8, 0xFFu8, 0xFFu8], seq![0x92u8, 0x49u8, 0x24u8],
        seq![0x49u8, 0x24u8, 0x92u8], seq![0x24u8, 0x92u8, 0x49u8],
        seq![0x6Du8, 0xB6u8, 0xDBu8], seq![0xB6u8, 0xDBu8, 0x6Du8],
        seq![0xDBu8, 0x6Du8, 0xB6u8],
    ]
}

/// The write passes of one round of method `m`, in order.
pub open spec fn round_writes(m: WipeMethod) -> Seq<PassSpec> {
    match m {
        WipeMethod::Zero => seq![pattern_pass(seq![0x00u8])],
        WipeMethod::Random => seq![prng_pass()],
        WipeMethod::Dod | WipeMethod::Ops2 => seq![
            pattern_pass(seq![0x00u8]),
            pattern_pass(seq![0xFFu8]),
            prng_pass(),
        ],
        WipeMethod::Gutmann => Seq::new(4, |i: int| prng_pass()) + gutmann_patterns().map_values(
            |p: Seq<u8>| pattern_pass(p),
        ) + Seq::new(4, |i: int| prng_pass()),
    }
}

/// The write passes that follow all rounds of method `m`.
pub open spec fn final_writes(m: WipeMethod) -> Seq<PassSpec> {
    if m == WipeMethod::Ops2 {
        seq![PassSpec { kind: PassKind::Pattern, pattern: seq![0x00u8], final_blank: true }]
    } else {
        Seq::empty()
    }
}

/// The write passes `ws`, each followed by its verify pass when `verify` holds.
pub open spec fn with_verify(ws: Seq<PassSpec>, verify: bool) -> Seq<PassSpec>
    decreases ws.len(),
{
    if ws.len() == 0 {
        Seq::empty()
    } else {
        with_verify(ws.drop_last(), verify) + if verify {
            seq![ws.last(), verify_of(ws.last())]
        } else {
            seq![ws.last()]
        }
    }
}

/// The number of write passes among the first `n` passes of `ps`.
pub open spec fn writes_in(ps: Seq<PassSpec>, n: int) -> nat
    decreases n,
{
    if n <= 0 {
        0
    } else {
        writes_in(ps, n - 1) + if is_write(ps[n - 1]) {
            1nat
        } else {
            0nat
        }
    }
}

/// Every pattern in `ps` holds between 1 and 16 bytes, and a generator pass holds none.
pub open spec fn well_formed_passes(ps: Seq<PassSpec>) -> bool {
    forall|i: int|
        0 <= i < ps.len() ==> {
            let p = #[trigger] ps[i];
            (p.kind == PassKind::Pattern || p.kind == PassKind::VerifyPattern) ==> 1 <= p.pattern.len()
                <= 16
        }
}

/// Appends the write pass `p`, and its verify pass when `verify` holds.
fn push_write(v: &mut Vec<PassDesc>, p: PassDesc, verify: bool, Ghost(ws): Ghost<Seq<PassSpec>>)
    requires
        p.kind == PassKind::Pattern || p.kind == PassKind::Prng,
        pass_views(old(v)@) == with_verify(ws, verify),
    ensures
        pass_views(final(v)@) == with_verify(ws.push(p@), verify),
{
    let ghost pv = p@;
    let verify_kind = match p.kind {
        PassKind::Pattern => PassKind::VerifyPattern,
        _ => PassKind::VerifyPrng,
    };
    let check = PassDesc { kind: verify_kind, pattern: p.pattern.clone(), final_blank: p.final_blank };
    v.push(p);
    if verify {
        v.push(check);
    }
    proof {
        assert(ws.push(pv).drop_last() =~= ws);
        if verify {
            assert(pass_views(final(v)@) =~= with_verify(ws.push(pv), verify));
        } else {
            assert(pass_views(final(v)@) =~= with_verify(ws.push(pv), verify));
        }
    }
}

/// The Gutmann fixed pattern at position `i`.
fn gutmann_pattern(i: usize) -> (r: Vec<u8>)
    requires
        i < 27,
    ensures
        r@ == gutmann_patterns()[i as int],
{
    let r = match i {
        0 => vec![0x55u8, 0x55u8, 0x55u8],
        1 => vec![0xAAu8, 0xAAu8, 0xAAu8],
        2 => vec![0x92u8, 0x49u8, 0x24u8],
        3 => vec![0x49u8, 0x24u8, 0x92u8],
        4 => vec![0x24u8, 0x92u8, 0x49u8],
        5 => vec![0x00u8, 0x00u8, 0x00u8],
        6 => vec![0x11u8, 0x11u8, 0x11u8],
        7 => vec![0x22u8, 0x22u8, 0x22u8],
        8 => vec![0x33u8, 0x33u8, 0x33u8],
        9 => vec![0x44u8, 0x44u8, 0x44u8],
        10 => vec![0x55u8, 0x55u8, 0x55u8],
        11 => vec![0x66u8, 0x66u8, 0x66u8],
        12 => vec![0x77u8, 0x77u8, 0x77u8],
        13 => vec![0x88u8, 0x88u8, 0x88u8],
        14 => vec![0x99u8, 0x99u8, 0x99u8],
        15 => vec![0xAAu8, 0xAAu8, 0xAAu8],
        16 => vec![0xBBu8, 0xBBu8, 0xBBu8],
        17 => vec![0xCCu8, 0xCCu8, 0xCCu8],
        18 => vec![0xDDu8, 0xDDu8, 0xDDu8],
        19 => vec![0xEEu8, 0xEEu8, 0xEEu8],
        20 => vec![0xFFu8, 0xFFu8, 0xFFu8],
        21 => vec![0x92u8, 0x49u8, 0x24u8],
        22 => vec![0x49u8, 0x24u8, 0x92u8],
        23 => vec![0x24u8, 0x92u8, 0x49u8],
        24 => vec![0x6Du8, 0xB6u8, 0xDBu8],
        25 => vec![0xB6u8, 0xDBu8, 0x6Du8],
        _ => vec![0xDBu8, 0x6Du8, 0xB6u8],
    };
    proof {
        assert(r@ =~= gutmann_patterns()[i as int]);
    }
    r
}

/// The one-byte pattern `b`.
fn single(b: u8) -> (r: Vec<u8>)
    ensures
        r@ == seq![b],
{
    let r = vec![b];
    proof {
        assert(r@ =~= seq![b]);
    }
    r
}

/// A write pass of the repeating pattern `p`.
fn pattern_desc(p: Vec<u8>) -> (r: PassDesc)
    ensures
        r@ == pattern_pass(p@),
{
    PassDesc { kind: PassKind::Pattern, pattern: p, final_blank: false }
}

/// A write pass of the generator's stream.
fn prng_desc() -> (r: PassDesc)
    ensures
        r@ == prng_pass(),
{
    PassDesc { kind: PassKind::Prng, pattern: Vec::new(), final_blank: false }
}

/// The passes of one round of method `m`, each write pass followed by its
/// verify pass when `verify` holds.
pub fn round_passes(m: WipeMethod, verify: bool) -> (r: Vec<PassDesc>)
    ensures
        pass_views(r@) == with_verify(round_writes(m), verify),
{
    let mut v: Vec<PassDesc> = Vec::new();
    let ghost mut ws: Seq<PassSpec> = Seq::empty();
    proof {
        assert(pass_views(v@) =~= with_verify(ws, verify));
    }
    match m {
        WipeMethod::Zero => {
            push_write(&mut v, pattern_desc(single(0x00u8)), verify, Ghost(ws));
            proof { ws = ws.push(pattern_pass(seq![0x00u8])); }
        },
        WipeMethod::Random => {
            push_write(&mut v, prng_desc(), verify, Ghost(ws));
            proof { ws = ws.push(prng_pass()); }
        },
        WipeMethod::Dod | WipeMethod::Ops2 => {
            push_write(&mut v, pattern_desc(single(0x00u8)), verify, Ghost(ws));
            proof { ws = ws.push(pattern_pass(seq![0x00u8])); }
            push_write(&mut v, pattern_desc(single(0xFFu8)), verify, Ghost(ws));
            proof { ws = ws.push(pattern_pass(seq![0xFFu8])); }
            push_write(&mut v, prng_desc(), verify, Ghost(ws));
            proof { ws = ws.push(prng_pass()); }
        },
        WipeMethod::Gutmann => {
            let mut i: usize = 0;
            while i < 4
                invariant
                    i <= 4,
                    ws =~= Seq::new(i as nat, |j: int| prng_pass()),
                    pass_views(v@) == with_verify(ws, verify),
                decreases 4 - i,
            {
                push_write(&mut v, prng_desc(), verify, Ghost(ws));
                proof { ws = ws.push(prng_pass()); }
                i += 1;
            }
            let ghost head = ws;
            let mut k: usize = 0;
            while k < 27
                invariant
                    k <= 27,
                    head =~= Seq::new(4, |j: int| prng_pass()),
                    ws =~= head + gutmann_patterns().subrange(0, k as int).map_values(
                        |p: Seq<u8>| pattern_pass(p),
                    ),
                    pass_views(v@) == with_verify(ws, verify),
                decreases 27 - k,
            {
                let pat = gutmann_pattern(k);
                proof {
                    assert(gutmann_patterns().subrange(0, k + 1).map_values(|p: Seq<u8>| pattern_pass(p))
                        =~= gutmann_patterns().subrange(0, k as int).map_values(|p: Seq<u8>| pattern_pass(p)).push(
                        pattern_pass(pat@)));
                }
                push_write(&mut v, pattern_desc(pat), verify, Ghost(ws));
                proof { ws = ws.push(pattern_pass(gutmann_patterns()[k as int])); }
                k += 1;
            }
            let ghost mid = ws;
            let mut j: usize = 0;
            while j < 4
                invariant
                    j <= 4,
                    ws =~= mid + Seq::new(j as nat, |t: int| prng_pass()),
                    pass_views(v@) == with_verify(ws, verify),
                decreases 4 - j,
            {
                push_write(&mut v, prng_desc(), verify, Ghost(ws));
                proof { ws = ws.push(prng_pass()); }
                j += 1;
            }
            proof {
                assert(gutmann_patterns().subrange(0, 27) =~= gutmann_patterns());
            }
        },
    }
    proof {
        assert(ws =~= round_writes(m));
    }
    v
}

/// The passes that follow all rounds of method `m`: for OPS-II the final
/// blanking pass, and its verify pass when `verify` holds; else none.
pub fn final_passes(m: WipeMethod, verify: bool) -> (r: Vec<PassDesc>)
    ensures
        pass_views(r@) == with_verify(final_writes(m), verify),
{
    let mut v: Vec<PassDesc> = Vec::new();
    proof {
        assert(pass_views(v@) =~= with_verify(Seq::empty(), verify));
    }
    if m == WipeMethod::Ops2 {
        let p = PassDesc { kind: PassKind::Pattern, pattern: single(0x00u8), final_blank: true };
        push_write(&mut v, p, verify, Ghost(Seq::empty()));
        proof {
            assert(Seq::<PassSpec>::empty().push(p@) =~= final_writes(m));
        }
    }
    v
}

/// The method `name` selects, if any.
pub open spec fn method_named(name: Seq<char>) -> Option<WipeMethod> {
    if name == "ops2"@ {
        Some(WipeMethod::Ops2)
    } else if name == "dod"@ {
        Some(WipeMethod::Dod)
    } else if name == "gutmann"@ {
        Some(WipeMethod::Gutmann)
    } else if name == "random"@ {
        Some(WipeMethod::Random)
    } else if name == "zero"@ {
        Some(WipeMethod::Zero)
    } else {
        None
    }
}

/// The method `name` selects, if any.
pub fn method_from_name(name: &str) -> (r: Option<WipeMethod>)
    ensures
        r == method_named(name@),
{
    if text_is(name, "ops2") {
        Some(WipeMethod::Ops2)
    } else if text_is(name, "dod") {
        Some(WipeMethod::Dod)
    } else if text_is(name, "gutmann") {
        Some(WipeMethod::Gutmann)
    } else if text_is(name, "random") {
        Some(WipeMethod::Random)
    } else if text_is(name, "zero") {
        Some(WipeMethod::Zero)
    } else {
        None
    }
}

} // verus!
