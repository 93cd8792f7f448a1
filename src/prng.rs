use rand::RngCore;
use rand::SeedableRng;
use rand::rngs::StdRng;
use rand_isaac::Isaac64Rng;
use rand_mt::Mt19937GenRand64;
use vstd::prelude::*;

verus! {

#[verifier::external_type_specification]
#[verifier::external_body]
pub struct ExIsaac64Rng(rand_isaac::Isaac64Rng);

#[verifier::external_type_specification]
#[verifier::external_body]
pub struct ExMt19937GenRand64(rand_mt::Mt19937GenRand64);

#[verifier::external_type_specification]
#[verifier::external_body]
pub struct ExStdRng(rand::rngs::StdRng);

#[verifier::external_type_specification]
#[verifier::external_body]
pub struct ExGetrandomError(getrandom::Error);

/// The seed an ISAAC-64 generator was made from.
pub uninterp spec fn isaac_seed(r: Isaac64Rng) -> Seq<u8>;

/// The lengths of the requests an ISAAC-64 generator has served since it was seeded.
pub uninterp spec fn isaac_requests(r: Isaac64Rng) -> Seq<nat>;

/// The bytes an ISAAC-64 generator made from `seed` hands out for a request of
/// `len` bytes, after serving requests of the lengths in `earlier`.
pub uninterp spec fn isaac_output(seed: Seq<u8>, earlier: Seq<nat>, len: nat) -> Seq<u8>;

/// The seed a 64-bit Mersenne Twister was made from, as eight little-endian bytes.
pub uninterp spec fn twister_seed(r: Mt19937GenRand64) -> Seq<u8>;

/// The lengths of the requests a 64-bit Mersenne Twister has served since it was seeded.
pub uninterp spec fn twister_requests(r: Mt19937GenRand64) -> Seq<nat>;

/// The bytes a 64-bit Mersenne Twister made from `seed` hands out for a request
/// of `len` bytes, after serving requests of the lengths in `earlier`.
pub uninterp spec fn twister_output(seed: Seq<u8>, earlier: Seq<nat>, len: nat) -> Seq<u8>;

/// The seed a `StdRng` was made from.
pub uninterp spec fn system_seed(r: StdRng) -> Seq<u8>;

/// The lengths of the requests a `StdRng` has served since it was seeded.
pub uninterp spec fn system_requests(r: StdRng) -> Seq<nat>;

/// The bytes a `StdRng` made from `seed` hands out for a request of `len`
/// bytes, after serving requests of the lengths in `earlier`.
pub uninterp spec fn system_output(seed: Seq<u8>, earlier: Seq<nat>, len: nat) -> Seq<u8>;

/// Relies on `Isaac64Rng::from_seed` (rand_isaac): a generator made from the
/// 32 seed bytes, which has served no request yet. Its first request of `a`
/// bytes gives the first `a` bytes of any longer first request.
#[verifier::external_body]
fn isaac_from_seed(seed: &Vec<u8>) -> (r: Isaac64Rng)
    requires
        seed.len() == 32,
    ensures
        isaac_seed(r) == seed@,
        isaac_requests(r) == Seq::<nat>::empty(),
        forall|b: nat| (#[trigger] isaac_output(isaac_seed(r), isaac_requests(r), b)).len() == b,
        forall|a: nat, b: nat|
            #![trigger isaac_output(isaac_seed(r), isaac_requests(r), a), isaac_output(isaac_seed(r), isaac_requests(r), b)]
            a <= b ==> isaac_output(isaac_seed(r), isaac_requests(r), a) == isaac_output(isaac_seed(r), isaac_requests(r), b).subrange(
                0,
                a as int,
            ),
{
    let mut s = [0u8; 32];
    s.copy_from_slice(seed.as_slice());
    Isaac64Rng::from_seed(s)
}

/// Relies on `RngCore::fill_bytes` of `Isaac64Rng` (rand_isaac): the first `n` bytes of `dest` get
/// the next `n` bytes of the stream, a function of the seed and of the lengths
/// of the earlier requests. The stream is taken whole words at a time, so a
/// request of a multiple of 8 bytes followed by a request of `b` bytes gives
/// the bytes of one request of both lengths together; and a request of `b`
/// bytes gives `b` bytes.
#[verifier::external_body]
fn isaac_fill(r: &mut Isaac64Rng, dest: &mut Vec<u8>, n: usize)
    requires
        n <= old(dest)@.len(),
    ensures
        final(dest)@.len() == old(dest)@.len(),
        final(dest)@.subrange(0, n as int) == isaac_output(isaac_seed(*old(r)), isaac_requests(*old(r)), n as nat),
        final(dest)@.subrange(n as int, final(dest)@.len() as int) == old(dest)@.subrange(
            n as int,
            old(dest)@.len() as int,
        ),
        isaac_seed(*final(r)) == isaac_seed(*old(r)),
        isaac_requests(*final(r)) == isaac_requests(*old(r)).push(n as nat),
        forall|b: nat| (#[trigger] isaac_output(isaac_seed(*final(r)), isaac_requests(*final(r)), b)).len() == b,
        n % 8 == 0 ==> forall|b: nat|
            isaac_output(isaac_seed(*old(r)), isaac_requests(*old(r)), n as nat) + #[trigger] isaac_output(
                isaac_seed(*final(r)),
                isaac_requests(*final(r)),
                b,
            ) == isaac_output(isaac_seed(*old(r)), isaac_requests(*old(r)), (n + b) as nat),
{
    r.fill_bytes(&mut dest[..n])
}

/// Relies on `Mt19937GenRand64::new` (rand_mt), given the eight seed bytes
/// read as a little-endian `u64`: a generator that has served no request yet.
/// Its first request of `a` bytes gives the first `a` bytes of any longer
/// first request.
#[verifier::external_body]
fn twister_from_seed(seed: &Vec<u8>) -> (r: Mt19937GenRand64)
    requires
        seed.len() == 8,
    ensures
        twister_seed(r) == seed@,
        twister_requests(r) == Seq::<nat>::empty(),
        forall|b: nat| (#[trigger] twister_output(twister_seed(r), twister_requests(r), b)).len() == b,
        forall|a: nat, b: nat|
            #![trigger twister_output(twister_seed(r), twister_requests(r), a), twister_output(twister_seed(r), twister_requests(r), b)]
            a <= b ==> twister_output(twister_seed(r), twister_requests(r), a) == twister_output(twister_seed(r), twister_requests(r), b).subrange(
                0,
                a as int,
            ),
{
    let mut s = [0u8; 8];
    s.copy_from_slice(seed.as_slice());
    Mt19937GenRand64::new(u64::from_le_bytes(s))
}

/// Relies on `Mt19937GenRand64::fill_bytes` (rand_mt): the first `n` bytes of `dest` get
/// the next `n` bytes of the stream, a function of the seed and of the lengths
/// of the earlier requests. The stream is taken whole words at a time, so a
/// request of a multiple of 8 bytes followed by a request of `b` bytes gives
/// the bytes of one request of both lengths together; and a request of `b`
/// bytes gives `b` bytes.
#[verifier::external_body]
fn twister_fill(r: &mut Mt19937GenRand64, dest: &mut Vec<u8>, n: usize)
    requires
        n <= old(dest)@.len(),
    ensures
        final(dest)@.len() == old(dest)@.len(),
        final(dest)@.subrange(0, n as int) == twister_output(twister_seed(*old(r)), twister_requests(*old(r)), n as nat),
        final(dest)@.subrange(n as int, final(dest)@.len() as int) == old(dest)@.subrange(
            n as int,
            old(dest)@.len() as int,
        ),
        twister_seed(*final(r)) == twister_seed(*old(r)),
        twister_requests(*final(r)) == twister_requests(*old(r)).push(n as nat),
        forall|b: nat| (#[trigger] twister_output(twister_seed(*final(r)), twister_requests(*final(r)), b)).len() == b,
        n % 8 == 0 ==> forall|b: nat|
            twister_output(twister_seed(*old(r)), twister_requests(*old(r)), n as nat) + #[trigger] twister_output(
                twister_seed(*final(r)),
                twister_requests(*final(r)),
                b,
            ) == twister_output(twister_seed(*old(r)), twister_requests(*old(r)), (n + b) as nat),
{
    r.fill_bytes(&mut dest[..n])
}

/// Relies on `StdRng::from_seed` (rand): a generator made from the 32 seed
/// bytes, which has served no request yet. Its first request of `a` bytes
/// gives the first `a` bytes of any longer first request.
#[verifier::external_body]
fn system_from_seed(seed: &Vec<u8>) -> (r: StdRng)
    requires
        seed.len() == 32,
    ensures
        system_seed(r) == seed@,
        system_requests(r) == Seq::<nat>::empty(),
        forall|b: nat| (#[trigger] system_output(system_seed(r), system_requests(r), b)).len() == b,
        forall|a: nat, b: nat|
            #![trigger system_output(system_seed(r), system_requests(r), a), system_output(system_seed(r), system_requests(r), b)]
            a <= b ==> system_output(system_seed(r), system_requests(r), a) == system_output(system_seed(r), system_requests(r), b).subrange(
                0,
                a as int,
            ),
{
    let mut s = [0u8; 32];
    s.copy_from_slice(seed.as_slice());
    StdRng::from_seed(s)
}

/// Relies on `RngCore::fill_bytes` of `StdRng` (rand): the first `n` bytes of `dest` get
/// the next `n` bytes of the stream, a function of the seed and of the lengths
/// of the earlier requests. The stream is taken whole words at a time, so a
/// request of a multiple of 8 bytes followed by a request of `b` bytes gives
/// the bytes of one request of both lengths together; and a request of `b`
/// bytes gives `b` bytes.
#[verifier::external_body]
fn system_fill(r: &mut StdRng, dest: &mut Vec<u8>, n: usize)
    requires
        n <= old(dest)@.len(),
    ensures
        final(dest)@.len() == old(dest)@.len(),
        final(dest)@.subrange(0, n as int) == system_output(system_seed(*old(r)), system_requests(*old(r)), n as nat),
        final(dest)@.subrange(n as int, final(dest)@.len() as int) == old(dest)@.subrange(
            n as int,
            old(dest)@.len() as int,
        ),
        system_seed(*final(r)) == system_seed(*old(r)),
        system_requests(*final(r)) == system_requests(*old(r)).push(n as nat),
        forall|b: nat| (#[trigger] system_output(system_seed(*final(r)), system_requests(*final(r)), b)).len() == b,
        n % 8 == 0 ==> forall|b: nat|
            system_output(system_seed(*old(r)), system_requests(*old(r)), n as nat) + #[trigger] system_output(
                system_seed(*final(r)),
                system_requests(*final(r)),
                b,
            ) == system_output(system_seed(*old(r)), system_requests(*old(r)), (n + b) as nat),
{
    r.fill_bytes(&mut dest[..n])
}

/// Relies on `getrandom::getrandom`: fills the buffer from the operating
/// system's entropy source, or fails; the length stays as it was.
#[verifier::external_body]
fn os_entropy(dest: &mut Vec<u8>) -> (r: Result<(), getrandom::Error>)
    ensures
        final(dest)@.len() == old(dest)@.len(),
{
    getrandom::getrandom(dest.as_mut_slice())
}


/// The generators this library offers.
#[derive(Clone, Copy, Debug, PartialEq, Eq, Structural)]
pub enum PrngKind {
    /// ISAAC-64, seeded with 32 bytes.
    Isaac,
    /// The 64-bit Mersenne Twister, seeded with 8 bytes.
    Twister,
    /// The platform's default cryptographic generator, seeded with 32 bytes.
    System,
}

/// Why a generator could not be made.
#[derive(Clone, Copy, Debug, PartialEq, Eq, Structural)]
pub enum PrngError {
    /// No generator has the name asked for.
    UnknownPrng,
    /// The operating system's entropy source failed.
    EntropyUnavailable,
}

/// The number of seed bytes a generator of kind `k` takes.
pub open spec fn seed_len(k: PrngKind) -> nat {
    match k {
        PrngKind::Isaac => 32,
        PrngKind::Twister => 8,
        PrngKind::System => 32,
    }
}

/// The bytes a generator of kind `k`, seeded with `seed`, hands out for a
/// request of `len` bytes after serving requests of the lengths in `earlier`.
pub open spec fn prng_output(k: PrngKind, seed: Seq<u8>, earlier: Seq<nat>, len: nat) -> Seq<u8> {
    match k {
        PrngKind::Isaac => isaac_output(seed, earlier, len),
        PrngKind::Twister => twister_output(seed, earlier, len),
        PrngKind::System => system_output(seed, earlier, len),
    }
}

/// The generator a name selects; `mt19937` and `twister` name the same one.
pub open spec fn kind_named(name: Seq<char>) -> Option<PrngKind> {
    if name == "isaac"@ {
        Some(PrngKind::Isaac)
    } else if name == "mt19937"@ || name == "twister"@ {
        Some(PrngKind::Twister)
    } else if name == "random"@ {
        Some(PrngKind::System)
    } else {
        None
    }
}

/// What determines a generator's future output: its kind, its seed, and the
/// lengths of the requests it has served since it was seeded.
pub struct PrngState {
    pub kind: PrngKind,
    pub seed: Seq<u8>,
    pub requests: Seq<nat>,
}

/// The state of a generator of kind `k` just seeded with `seed`.
pub open spec fn fresh_state(k: PrngKind, seed: Seq<u8>) -> PrngState {
    PrngState { kind: k, seed, requests: Seq::empty() }
}

/// A request of `b` bytes from a generator of kind `k` with seed `seed`,
/// after requests of the lengths in `reqs`, gives `b` bytes, for every `b`.
pub open spec fn lengths_hold(k: PrngKind, seed: Seq<u8>, reqs: Seq<nat>) -> bool {
    forall|b: nat| (#[trigger] prng_output(k, seed, reqs, b)).len() == b
}

/// A generator of kind `k` just seeded with `seed` gives, for a first request
/// of `a` bytes, the first `a` bytes of any longer first request.
pub open spec fn prefixes_hold(k: PrngKind, seed: Seq<u8>) -> bool {
    forall|a: nat, b: nat|
        #![trigger prng_output(k, seed, Seq::empty(), a), prng_output(k, seed, Seq::empty(), b)]
        a <= b ==> prng_output(k, seed, Seq::empty(), a) == prng_output(k, seed, Seq::empty(), b).subrange(0, a as int)
}

/// After requests of the lengths in `reqs`, a request of `n` bytes followed
/// by one of `b` bytes gives the bytes of one request of `n + b`, for every `b`.
pub open spec fn joins(k: PrngKind, seed: Seq<u8>, reqs: Seq<nat>, n: nat) -> bool {
    forall|b: nat|
        prng_output(k, seed, reqs, n) + #[trigger] prng_output(k, seed, reqs.push(n), b) == prng_output(
            k,
            seed,
            reqs,
            n + b,
        )
}

/// A re-seedable byte-stream generator.
pub trait NwipePrng {
    spec fn state(&self) -> PrngState;

    /// Fills `dest` with the next bytes of the stream.
    fn fill_bytes(&mut self, dest: &mut Vec<u8>)
        ensures
            final(dest)@ == prng_output(
                old(self).state().kind,
                old(self).state().seed,
                old(self).state().requests,
                old(dest)@.len(),
            ),
            final(dest)@.len() == old(dest)@.len(),
            final(self).state() == (PrngState {
                requests: old(self).state().requests.push(old(dest)@.len()),
                ..old(self).state()
            }),
            lengths_hold(final(self).state().kind, final(self).state().seed, final(self).state().requests),
    ;

    /// Fills the first `n` bytes of `dest` with the next `n` bytes of the
    /// stream and leaves the rest; a multiple of 8 bytes joins up with what
    /// follows.
    fn fill_front(&mut self, dest: &mut Vec<u8>, n: usize)
        requires
            n <= old(dest)@.len(),
        ensures
            final(dest)@.len() == old(dest)@.len(),
            final(dest)@.subrange(0, n as int) == prng_output(
                old(self).state().kind,
                old(self).state().seed,
                old(self).state().requests,
                n as nat,
            ),
            final(dest)@.subrange(n as int, final(dest)@.len() as int) == old(dest)@.subrange(
                n as int,
                old(dest)@.len() as int,
            ),
            final(self).state() == (PrngState {
                requests: old(self).state().requests.push(n as nat),
                ..old(self).state()
            }),
            lengths_hold(final(self).state().kind, final(self).state().seed, final(self).state().requests),
            n % 8 == 0 ==> joins(old(self).state().kind, old(self).state().seed, old(self).state().requests, n as nat),
    ;

    /// Starts the stream over from `seed`.
    fn reseed(&mut self, seed: &Vec<u8>)
        requires
            seed@.len() == seed_len(old(self).state().kind),
        ensures
            final(self).state() == fresh_state(old(self).state().kind, seed@),
            lengths_hold(old(self).state().kind, seed@, Seq::empty()),
            prefixes_hold(old(self).state().kind, seed@),
    ;
}

/// Whether two strings hold the same characters.
pub(crate) fn text_is(a: &str, b: &str) -> (r: bool)
    ensures
        r == (a@ == b@),
{
    a.to_owned() == b.to_owned()
}

/// A buffer of `n` zero bytes.
pub fn zeroed(n: usize) -> (r: Vec<u8>)
    ensures
        r@ == Seq::new(n as nat, |i: int| 0u8),
{
    let mut v: Vec<u8> = Vec::with_capacity(n);
    let mut i: usize = 0;
    while i < n
        invariant
            i <= n,
            v@ == Seq::new(i as nat, |j: int| 0u8),
        decreases n - i,
    {
        v.push(0u8);
        i += 1;
        assert(v@ =~= Seq::new(i as nat, |j: int| 0u8));
    }
    v
}

/// The generator `name` selects, if any.
pub fn prng_kind_from_name(name: &str) -> (r: Option<PrngKind>)
    ensures
        r == kind_named(name@),
{
    if text_is(name, "isaac") {
        Some(PrngKind::Isaac)
    } else if text_is(name, "mt19937") || text_is(name, "twister") {
        Some(PrngKind::Twister)
    } else if text_is(name, "random") {
        Some(PrngKind::System)
    } else {
        None
    }
}

/// The number of seed bytes a generator of kind `kind` takes.
pub fn seed_length(kind: PrngKind) -> (r: usize)
    ensures
        r == seed_len(kind),
{
    match kind {
        PrngKind::Isaac => 32,
        PrngKind::Twister => 8,
        PrngKind::System => 32,
    }
}

/// A fresh seed for a generator of kind `kind`, drawn from the operating
/// system's entropy source.
pub fn seed_from_entropy(kind: PrngKind) -> (r: Result<Vec<u8>, PrngError>)
    ensures
        r is Ok ==> r->Ok_0@.len() == seed_len(kind),
        r is Err ==> r->Err_0 == PrngError::EntropyUnavailable,
{
    let mut seed = zeroed(seed_length(kind));
    match os_entropy(&mut seed) {
        Ok(()) => Ok(seed),
        Err(_) => Err(PrngError::EntropyUnavailable),
    }
}

/// ISAAC-64.
pub struct IsaacPrng {
    rng: Isaac64Rng,
}

impl IsaacPrng {
    /// This generator is of kind `Isaac`.
    pub proof fn lemma_kind(&self)
        ensures
            self.state().kind == PrngKind::Isaac,
    {
    }

    /// A generator seeded with the 32 bytes of `seed`.
    pub fn from_seed(seed: &Vec<u8>) -> (r: IsaacPrng)
        requires
            seed@.len() == 32,
        ensures
            r.state() == fresh_state(PrngKind::Isaac, seed@),
            lengths_hold(PrngKind::Isaac, seed@, Seq::empty()),
            prefixes_hold(PrngKind::Isaac, seed@),
    {
        IsaacPrng { rng: isaac_from_seed(seed) }
    }

    /// A generator seeded from the operating system's entropy source.
    pub fn new() -> (r: Result<IsaacPrng, PrngError>)
        ensures
            r is Ok ==> r->Ok_0.state().kind == PrngKind::Isaac
                && r->Ok_0.state().requests == Seq::<nat>::empty()
                && r->Ok_0.state().seed.len() == 32,
            r is Err ==> r->Err_0 == PrngError::EntropyUnavailable,
    {
        let seed = seed_from_entropy(PrngKind::Isaac)?;
        Ok(IsaacPrng::from_seed(&seed))
    }
}

impl NwipePrng for IsaacPrng {
    closed spec fn state(&self) -> PrngState {
        PrngState { kind: PrngKind::Isaac, seed: isaac_seed(self.rng), requests: isaac_requests(self.rng) }
    }

    fn fill_bytes(&mut self, dest: &mut Vec<u8>) {
        let n = dest.len();
        isaac_fill(&mut self.rng, dest, n);
        assert(dest@ =~= dest@.subrange(0, n as int));
    }

    fn fill_front(&mut self, dest: &mut Vec<u8>, n: usize) {
        isaac_fill(&mut self.rng, dest, n);
    }

    fn reseed(&mut self, seed: &Vec<u8>) {
        self.rng = isaac_from_seed(seed);
    }
}


/// The 64-bit Mersenne Twister.
pub struct Mt19937Prng {
    rng: Mt19937GenRand64,
}

impl Mt19937Prng {
    /// This generator is of kind `Twister`.
    pub proof fn lemma_kind(&self)
        ensures
            self.state().kind == PrngKind::Twister,
    {
    }

    /// A generator seeded with the 8 bytes of `seed`, read as a little-endian `u64`.
    pub fn from_seed(seed: &Vec<u8>) -> (r: Mt19937Prng)
        requires
            seed@.len() == 8,
        ensures
            r.state() == fresh_state(PrngKind::Twister, seed@),
            lengths_hold(PrngKind::Twister, seed@, Seq::empty()),
            prefixes_hold(PrngKind::Twister, seed@),
    {
        Mt19937Prng { rng: twister_from_seed(seed) }
    }

    /// A generator seeded from the operating system's entropy source.
    pub fn new() -> (r: Result<Mt19937Prng, PrngError>)
        ensures
            r is Ok ==> r->Ok_0.state().kind == PrngKind::Twister
                && r->Ok_0.state().requests == Seq::<nat>::empty()
                && r->Ok_0.state().seed.len() == 8,
            r is Err ==> r->Err_0 == PrngError::EntropyUnavailable,
    {
        let seed = seed_from_entropy(PrngKind::Twister)?;
        Ok(Mt19937Prng::from_seed(&seed))
    }
}

impl NwipePrng for Mt19937Prng {
    closed spec fn state(&self) -> PrngState {
        PrngState {
            kind: PrngKind::Twister,
            seed: twister_seed(self.rng),
            requests: twister_requests(self.rng),
        }
    }

    fn fill_bytes(&mut self, dest: &mut Vec<u8>) {
        let n = dest.len();
        twister_fill(&mut self.rng, dest, n);
        assert(dest@ =~= dest@.subrange(0, n as int));
    }

    fn fill_front(&mut self, dest: &mut Vec<u8>, n: usize) {
        twister_fill(&mut self.rng, dest, n);
    }

    fn reseed(&mut self, seed: &Vec<u8>) {
        self.rng = twister_from_seed(seed);
    }
}

/// The platform's default cryptographic generator.
pub struct StdPrng {
    rng: StdRng,
}

impl StdPrng {
    /// This generator is of kind `System`.
    pub proof fn lemma_kind(&self)
        ensures
            self.state().kind == PrngKind::System,
    {
    }

    /// A generator seeded with the 32 bytes of `seed`.
    pub fn from_seed(seed: &Vec<u8>) -> (r: StdPrng)
        requires
            seed@.len() == 32,
        ensures
            r.state() == fresh_state(PrngKind::System, seed@),
            lengths_hold(PrngKind::System, seed@, Seq::empty()),
            prefixes_hold(PrngKind::System, seed@),
    {
        StdPrng { rng: system_from_seed(seed) }
    }

    /// A generator seeded from the operating system's entropy source.
    pub fn new() -> (r: Result<StdPrng, PrngError>)
        ensures
            r is Ok ==> r->Ok_0.state().kind == PrngKind::System
                && r->Ok_0.state().requests == Seq::<nat>::empty()
                && r->Ok_0.state().seed.len() == 32,
            r is Err ==> r->Err_0 == PrngError::EntropyUnavailable,
    {
        let seed = seed_from_entropy(PrngKind::System)?;
        Ok(StdPrng::from_seed(&seed))
    }
}

impl NwipePrng for StdPrng {
    closed spec fn state(&self) -> PrngState {
        PrngState { kind: PrngKind::System, seed: system_seed(self.rng), requests: system_requests(self.rng) }
    }

    fn fill_bytes(&mut self, dest: &mut Vec<u8>) {
        let n = dest.len();
        system_fill(&mut self.rng, dest, n);
        assert(dest@ =~= dest@.subrange(0, n as int));
    }

    fn fill_front(&mut self, dest: &mut Vec<u8>, n: usize) {
        system_fill(&mut self.rng, dest, n);
    }

    fn reseed(&mut self, seed: &Vec<u8>) {
        self.rng = system_from_seed(seed);
    }
}

/// One generator of any kind.
pub enum Prng {
    Isaac(IsaacPrng),
    Twister(Mt19937Prng),
    System(StdPrng),
}

impl Prng {
    /// A generator of kind `kind` seeded with `seed`.
    pub fn from_seed(kind: PrngKind, seed: &Vec<u8>) -> (r: Prng)
        requires
            seed@.len() == seed_len(kind),
        ensures
            r.state() == fresh_state(kind, seed@),
            lengths_hold(kind, seed@, Seq::empty()),
            prefixes_hold(kind, seed@),
    {
        match kind {
            PrngKind::Isaac => Prng::Isaac(IsaacPrng::from_seed(seed)),
            PrngKind::Twister => Prng::Twister(Mt19937Prng::from_seed(seed)),
            PrngKind::System => Prng::System(StdPrng::from_seed(seed)),
        }
    }

    /// The kind of this generator.
    pub fn kind(&self) -> (r: PrngKind)
        ensures
            r == self.state().kind,
    {
        match self {
            Prng::Isaac(_) => PrngKind::Isaac,
            Prng::Twister(_) => PrngKind::Twister,
            Prng::System(_) => PrngKind::System,
        }
    }
}

impl NwipePrng for Prng {
    open spec fn state(&self) -> PrngState {
        match self {
            Prng::Isaac(p) => p.state(),
            Prng::Twister(p) => p.state(),
            Prng::System(p) => p.state(),
        }
    }

    fn fill_bytes(&mut self, dest: &mut Vec<u8>) {
        match self {
            Prng::Isaac(p) => p.fill_bytes(dest),
            Prng::Twister(p) => p.fill_bytes(dest),
            Prng::System(p) => p.fill_bytes(dest),
        }
    }

    fn fill_front(&mut self, dest: &mut Vec<u8>, n: usize) {
        match self {
            Prng::Isaac(p) => p.fill_front(dest, n),
            Prng::Twister(p) => p.fill_front(dest, n),
            Prng::System(p) => p.fill_front(dest, n),
        }
    }

    fn reseed(&mut self, seed: &Vec<u8>) {
        match self {
            Prng::Isaac(p) => p.reseed(seed),
            Prng::Twister(p) => p.reseed(seed),
            Prng::System(p) => p.reseed(seed),
        }
    }
}

/// Reseeding replays the stream: whatever two generators of one kind have
/// handed out before, once both are reseeded with `seed` (which leaves each
/// in `fresh_state(kind, seed)`), a request of `n` bytes gets the same bytes
/// from each.
pub proof fn lemma_reseed_replays(before_a: PrngState, before_b: PrngState, seed: Seq<u8>, n: nat)
    requires
        before_a.kind == before_b.kind,
    ensures
        ({
            let a = fresh_state(before_a.kind, seed);
            let b = fresh_state(before_b.kind, seed);
            prng_output(a.kind, a.seed, a.requests, n) == prng_output(b.kind, b.seed, b.requests, n)
        }),
{
}

/// The generator that `name` selects, seeded from the operating system's
/// entropy source.
pub fn init_prng(name: &str) -> (r: Result<Prng, PrngError>)
    ensures
        kind_named(name@) is None <==> r == Err::<Prng, PrngError>(PrngError::UnknownPrng),
        r is Ok ==> Some(r->Ok_0.state().kind) == kind_named(name@)
            && r->Ok_0.state().requests == Seq::<nat>::empty()
            && r->Ok_0.state().seed.len() == seed_len(r->Ok_0.state().kind),
        r is Err ==> r->Err_0 == PrngError::UnknownPrng || r->Err_0 == PrngError::EntropyUnavailable,
{
    match prng_kind_from_name(name) {
        None => Err(PrngError::UnknownPrng),
        Some(kind) => {
            let seed = seed_from_entropy(kind)?;
            Ok(Prng::from_seed(kind, &seed))
        },
    }
}

/// The `n` bytes of the stream of a generator of kind `k` seeded with `seed`
/// from byte `t` on.
pub open spec fn stream_bytes(k: PrngKind, seed: Seq<u8>, t: nat, n: nat) -> Seq<u8> {
    prng_output(k, seed, Seq::empty(), t + n).subrange(t as int, (t + n) as int)
}

/// A generator whose requests join up exactly: a request of `n` bytes takes
/// the next `n` bytes of the stream. It draws whole words from its generator
/// and keeps the bytes of a word that a request left unused for the next one.
pub struct PrngStream {
    prng: Prng,
    spare: Vec<u8>,
    drawn: Ghost<nat>,
}

impl PrngStream {
    pub closed spec fn kind(&self) -> PrngKind {
        self.prng.state().kind
    }

    pub closed spec fn seed(&self) -> Seq<u8> {
        self.prng.state().seed
    }

    /// The bytes of the stream handed out since the last seeding.
    pub closed spec fn taken(&self) -> nat {
        (self.drawn@ - self.spare@.len()) as nat
    }

    /// The stream's invariant.
    pub closed spec fn well_formed(&self) -> bool {
        let k = self.prng.state().kind;
        let s = self.prng.state().seed;
        let d = self.drawn@;
        &&& lengths_hold(k, s, Seq::empty())
        &&& prefixes_hold(k, s)
        &&& forall|b: nat|
            prng_output(k, s, Seq::empty(), d) + #[trigger] prng_output(k, s, self.prng.state().requests, b)
                == prng_output(k, s, Seq::empty(), (d + b) as nat)
        &&& self.spare@.len() < 8
        &&& self.spare@.len() <= d
        &&& self.spare@ == prng_output(k, s, Seq::empty(), d).subrange(d - self.spare@.len(), d as int)
    }

    /// A stream of kind `kind` seeded with `seed`.
    pub fn new(kind: PrngKind, seed: &Vec<u8>) -> (r: PrngStream)
        requires
            seed@.len() == seed_len(kind),
        ensures
            r.well_formed(),
            r.kind() == kind,
            r.seed() == seed@,
            r.taken() == 0,
    {
        let prng = Prng::from_seed(kind, seed);
        let r = PrngStream { prng, spare: Vec::new(), drawn: Ghost(0) };
        proof {
            assert forall|b: nat|
                prng_output(kind, seed@, Seq::empty(), 0) + #[trigger] prng_output(kind, seed@, Seq::empty(), b)
                    == prng_output(kind, seed@, Seq::empty(), 0 + b) by {
                assert(prng_output(kind, seed@, Seq::empty(), 0).len() == 0);
                assert(prng_output(kind, seed@, Seq::empty(), 0) + prng_output(kind, seed@, Seq::empty(), b)
                    =~= prng_output(kind, seed@, Seq::empty(), b));
            }
            assert(r.spare@ =~= prng_output(kind, seed@, Seq::empty(), 0).subrange(0, 0));
        }
        r
    }

    /// Starts the stream over from `seed`.
    pub fn reseed(&mut self, seed: &Vec<u8>)
        requires
            old(self).well_formed(),
            seed@.len() == seed_len(old(self).kind()),
        ensures
            final(self).well_formed(),
            final(self).kind() == old(self).kind(),
            final(self).seed() == seed@,
            final(self).taken() == 0,
    {
        *self = PrngStream::new(self.prng.kind(), seed);
    }

    /// Fills `dest` with the next `dest.len()` bytes of the stream.
    pub fn fill(&mut self, dest: &mut Vec<u8>)
        requires
            old(self).well_formed(),
            old(dest)@.len() <= isize::MAX,
        ensures
            final(self).well_formed(),
            final(self).kind() == old(self).kind(),
            final(self).seed() == old(self).seed(),
            final(self).taken() == old(self).taken() + old(dest)@.len(),
            final(dest)@ == stream_bytes(old(self).kind(), old(self).seed(), old(self).taken(), old(dest)@.len()),
    {
        let ghost k = self.prng.state().kind;
        let ghost s = self.prng.state().seed;
        let ghost d = self.drawn@;
        let ghost t = self.taken();
        let ghost whole = prng_output(k, s, Seq::empty(), d);
        let n = dest.len();
        let sp = self.spare.len();
        let k1 = if sp < n {
            sp
        } else {
            n
        };
        let mut i: usize = 0;
        while i < k1
            invariant
                k1 <= sp,
                k1 <= n,
                sp == self.spare@.len(),
                n == dest@.len(),
                i <= k1,
                forall|j: int| 0 <= j < i ==> dest@[j] == self.spare@[j],
            decreases k1 - i,
        {
            dest.set(i, self.spare[i]);
            i += 1;
        }
        let mut rest: Vec<u8> = Vec::new();
        let mut j: usize = k1;
        while j < sp
            invariant
                k1 <= j <= sp,
                sp == self.spare@.len(),
                rest@ == self.spare@.subrange(k1 as int, j as int),
            decreases sp - j,
        {
            rest.push(self.spare[j]);
            j += 1;
            assert(rest@ =~= self.spare@.subrange(k1 as int, j as int));
        }
        let ghost head = dest@.subrange(0, k1 as int);
        proof {
            assert(head =~= self.spare@.subrange(0, k1 as int));
        }
        if n > k1 {
            let m = n - k1;
            let r = if m % 8 == 0 {
                m
            } else {
                m - m % 8 + 8
            };
            let mut tmp = zeroed(r);
            let ghost reqs = self.prng.state().requests;
            self.prng.fill_front(&mut tmp, r);
            let mut q: usize = 0;
            while q < m
                invariant
                    q <= m,
                    m + k1 == n,
                    n == dest@.len(),
                    m <= r,
                    r == tmp@.len(),
                    dest@.subrange(0, k1 as int) == head,
                    forall|j: int| 0 <= j < q ==> dest@[k1 + j] == tmp@[j],
                decreases m - q,
            {
                dest.set(k1 + q, tmp[q]);
                q += 1;
                assert(dest@.subrange(0, k1 as int) =~= head);
            }
            let mut left: Vec<u8> = Vec::new();
            let mut u: usize = m;
            while u < r
                invariant
                    m <= u <= r,
                    r == tmp@.len(),
                    left@ == tmp@.subrange(m as int, u as int),
                decreases r - u,
            {
                left.push(tmp[u]);
                u += 1;
                assert(left@ =~= tmp@.subrange(m as int, u as int));
            }
            self.spare = left;
            proof {
                let out = prng_output(k, s, reqs, r as nat);
                assert(tmp@.subrange(0, r as int) =~= tmp@);
                assert(whole + out == prng_output(k, s, Seq::empty(), (d + r) as nat));
                let whole2 = prng_output(k, s, Seq::empty(), (d + r) as nat);
                assert forall|b: nat|
                    whole2 + #[trigger] prng_output(k, s, self.prng.state().requests, b) == prng_output(
                        k,
                        s,
                        Seq::empty(),
                        (d + r + b) as nat,
                    ) by {
                    let x = prng_output(k, s, self.prng.state().requests, b);
                    assert(out + x == prng_output(k, s, reqs, (r + b) as nat));
                    assert(whole + prng_output(k, s, reqs, (r + b) as nat) == prng_output(
                        k,
                        s,
                        Seq::empty(),
                        (d + (r + b)) as nat,
                    ));
                    assert((whole + out) + x =~= whole + (out + x));
                }
                self.drawn = Ghost((d + r) as nat);
                assert(whole.len() == d);
                assert(k1 == sp);
                assert(self.spare@ =~= whole2.subrange(d + m, d + r));
                assert(tmp@ == out);
                assert(dest@ =~= head + tmp@.subrange(0, m as int));
                assert(whole2.subrange(t as int, t + n) =~= whole.subrange(t as int, d as int) + out.subrange(0, m as int));
                assert(dest@ =~= whole2.subrange(t as int, t + n));
                assert(whole2.subrange(t as int, t + n) =~= stream_bytes(k, s, t, n as nat)) by {
                    assert(prng_output(k, s, Seq::empty(), (t + n) as nat) == whole2.subrange(0, t + n));
                }
            }
        } else {
            self.spare = rest;
            proof {
                assert(dest@ =~= whole.subrange(t as int, t + n));
                assert(whole.subrange(t as int, t + n) =~= stream_bytes(k, s, t, n as nat)) by {
                    assert(prng_output(k, s, Seq::empty(), (t + n) as nat) == whole.subrange(0, t + n));
                }
                assert(self.spare@ =~= whole.subrange(t + n, d as int));
            }
        }
    }
}

/// Two requests in a row take the same bytes as one request of both lengths.
pub proof fn lemma_stream_fills_join(k: PrngKind, seed: Seq<u8>, t: nat, a: nat, b: nat)
    requires
        lengths_hold(k, seed, Seq::empty()),
        prefixes_hold(k, seed),
    ensures
        stream_bytes(k, seed, t, a) + stream_bytes(k, seed, t + a, b) == stream_bytes(k, seed, t, a + b),
{
    let w = prng_output(k, seed, Seq::empty(), t + a + b);
    assert(prng_output(k, seed, Seq::empty(), t + a) == w.subrange(0, (t + a) as int));
    assert(stream_bytes(k, seed, t, a) + stream_bytes(k, seed, t + a, b) =~= stream_bytes(k, seed, t, a + b));
}

} // verus!
