use crate::context::{PassType, Progress};
use crate::method::{
    final_passes, final_writes, gutmann_patterns, is_write, method_from_name, method_named, pass_views, pattern_pass, round_passes,
    round_writes, verify_of, well_formed_passes, with_verify, writes_in, PassDesc, PassKind, PassSpec, WipeMethod,
};
use crate::prng::{
    init_prng, joins, kind_named, lengths_hold, prng_kind_from_name, prng_output, seed_from_entropy, seed_len, seed_length, zeroed,
    NwipePrng, Prng, PrngKind, PrngState,
};
use crate::progress::{
    advance_progress, eta_spec, pass_percent, pass_percent_spec, round_percent, round_percent_spec, throughput_spec,
};
use crate::stream::{
    block_requests, chunk_len, chunk_spec, fill_pattern, first_mismatch, lemma_pattern_chunk,
    pass_content, pattern_start, tile, BUF, BUF_LEN,
};
use vstd::prelude::*;

verus! {

/// Where the engine stands within a pass.
#[derive(Clone, Copy, Debug, PartialEq, Eq, Structural)]
pub enum Stage {
    /// The device must be positioned at offset 0 before the pass starts.
    Seek,
    /// The pass moves its chunks.
    Stream,
    /// A write pass is complete and the device must be synced.
    Sync,
    /// The wipe was cancelled; what was written must be synced.
    CancelSync,
    /// The wipe is over.
    Done,
}

/// What the caller must do next with the device.
#[derive(Clone, Copy, Debug, PartialEq, Eq, Structural)]
pub enum Action {
    /// Position the device at offset 0, then call `seek_done`.
    Seek,
    /// Write the `len` bytes of `buffer()` from `start` on at the current
    /// offset, then call `write_done`.
    Write { start: usize, len: usize },
    /// Read the next `len` bytes of the device, then call `read_done`.
    Read { len: usize },
    /// Flush the device, then call `sync_done`.
    Sync,
    /// Nothing: the wipe is over.
    Done,
}

/// Why a wipe failed.
#[derive(Clone, Copy, Debug, PartialEq, Eq, Structural)]
pub enum WipeFailure {
    /// A seek, read, write or sync of the device failed.
    Io,
    /// A byte read back differs from the byte the pass wrote there.
    Mismatch { offset: u64, expected: u8, found: u8 },
    /// No seed could be drawn for a generator pass.
    Entropy,
}

/// Why a wipe could not be set up.
#[derive(Clone, Copy, Debug, PartialEq, Eq, Structural)]
pub enum ConfigError {
    /// No method has the name asked for.
    UnknownMethod,
    /// No generator has the name asked for.
    UnknownPrng,
    /// The number of rounds is zero.
    InvalidRounds,
    /// The bytes the wipe moves in all do not fit a 64-bit counter.
    TooLarge,
    /// No seed could be drawn for the generator.
    EntropyUnavailable,
}

/// The wipe of one device: which pass runs, how far it is, and what the
/// caller must do next.
pub struct Wiper {
    device_size: u64,
    rounds: u32,
    /// The passes of one round, verify passes included.
    round_list: Vec<PassDesc>,
    /// The passes after all rounds.
    final_list: Vec<PassDesc>,
    /// The round being run, from 1.
    round: u32,
    /// Whether the passes after all rounds are being run.
    in_final: bool,
    /// The position of the current pass in its list.
    index: usize,
    stage: Stage,
    /// Whether the current pass writes.
    writing: bool,
    /// How far the current pass has come.
    offset: u64,
    /// The chunks the current pass has moved.
    block: u64,
    /// The pattern, or the generator's current block, for the current pass.
    buffer: Vec<u8>,
    prng: Prng,
    /// The seed of the last generator write pass.
    seed: Vec<u8>,
    progress: Progress,
    /// The bytes the whole wipe moves.
    expected_total: u64,
    start_time: u64,
    failure: Option<WipeFailure>,
    cancelled: bool,
    method: Ghost<WipeMethod>,
    verify: Ghost<bool>,
    /// The bytes the current pass has moved so far.
    pass_bytes: Ghost<Seq<u8>>,
    /// The bytes the last completed write pass wrote.
    last_written: Ghost<Seq<u8>>,
}

impl Wiper {
    /// The passes of one round.
    pub closed spec fn round_views(&self) -> Seq<PassSpec> {
        pass_views(self.round_list@)
    }

    /// The passes after all rounds.
    pub closed spec fn final_views(&self) -> Seq<PassSpec> {
        pass_views(self.final_list@)
    }

    /// The passes of the part of the schedule that runs now.
    pub closed spec fn list(&self) -> Seq<PassSpec> {
        if self.in_final {
            self.final_views()
        } else {
            self.round_views()
        }
    }

    /// The pass that runs now.
    pub closed spec fn current(&self) -> PassSpec {
        self.list()[self.index as int]
    }

    pub closed spec fn index_of(&self) -> nat {
        self.index as nat
    }

    pub closed spec fn stage_of(&self) -> Stage {
        self.stage
    }

    pub closed spec fn size(&self) -> nat {
        self.device_size as nat
    }

    pub closed spec fn rounds_of(&self) -> nat {
        self.rounds as nat
    }

    pub closed spec fn offset_of(&self) -> nat {
        self.offset as nat
    }

    pub closed spec fn method_of(&self) -> WipeMethod {
        self.method@
    }

    pub closed spec fn verify_of_wipe(&self) -> bool {
        self.verify@
    }

    /// The generator's state.
    pub closed spec fn prng_state(&self) -> PrngState {
        self.prng.state()
    }

    /// The seed the current generator pass runs on.
    pub closed spec fn seed_of(&self) -> Seq<u8> {
        self.seed@
    }

    /// The bytes the current pass has written, or read back and found equal, so far.
    pub closed spec fn pass_bytes(&self) -> Seq<u8> {
        self.pass_bytes@
    }

    /// The bytes the last completed write pass wrote.
    pub closed spec fn last_written(&self) -> Seq<u8> {
        self.last_written@
    }

    /// The bytes the current pass covers the device with.
    pub closed spec fn content(&self) -> Seq<u8> {
        pass_content(self.current(), self.prng.state().kind, self.seed@, self.device_size as nat)
    }

    /// The bytes the time estimate expects the wipe to move.
    pub closed spec fn expected_of(&self) -> nat {
        self.expected_total as nat
    }

    /// When the wipe started, in seconds.
    pub closed spec fn start_of(&self) -> nat {
        self.start_time as nat
    }

    pub closed spec fn progress_of(&self) -> Progress {
        self.progress
    }

    pub closed spec fn failure_of(&self) -> Option<WipeFailure> {
        self.failure
    }

    pub closed spec fn cancelled_of(&self) -> bool {
        self.cancelled
    }

    /// The write passes of one round.
    pub closed spec fn writes_per_round(&self) -> nat {
        writes_in(self.round_views(), self.round_views().len() as int)
    }

    /// The passes of the whole schedule.
    pub closed spec fn total_passes(&self) -> nat {
        (self.rounds * self.round_views().len() + self.final_views().len()) as nat
    }

    /// The passes completed before the current one.
    pub closed spec fn passes_done(&self) -> nat {
        if self.in_final {
            (self.rounds * self.round_views().len() + self.index) as nat
        } else {
            ((self.round - 1) * self.round_views().len() + self.index) as nat
        }
    }

    /// The write passes completed before the current one.
    pub closed spec fn writes_done(&self) -> nat {
        if self.in_final {
            (self.rounds * self.writes_per_round() + writes_in(self.final_views(), self.index as int)) as nat
        } else {
            ((self.round - 1) * self.writes_per_round() + writes_in(self.round_views(), self.index as int)) as nat
        }
    }

    /// The engine's invariant.
    pub closed spec fn well_formed(&self) -> bool {
        &&& self.buffer@.len() == BUF_LEN
        &&& self.round_views() == with_verify(round_writes(self.method@), self.verify@)
        &&& self.final_views() == with_verify(final_writes(self.method@), self.verify@)
        &&& well_formed_passes(self.round_views())
        &&& well_formed_passes(self.final_views())
        &&& self.round_views().len() >= 1
        &&& 1 <= self.round <= self.rounds
        &&& self.in_final ==> self.round == self.rounds && self.final_views().len() >= 1
        &&& self.index <= self.list().len()
        &&& self.stage != Stage::Done ==> self.index < self.list().len()
        &&& self.index < self.list().len() ==> self.writing == is_write(self.current())
        &&& self.stage == Stage::Done && self.failure is None && !self.cancelled ==> {
            &&& self.index == self.list().len()
            &&& self.offset == 0
            &&& !self.writing
            &&& (self.in_final || self.final_views().len() == 0)
            &&& self.round == self.rounds
        }
        &&& self.stage != Stage::Done ==> self.failure is None
        &&& (self.stage == Stage::CancelSync) == (self.stage != Stage::Done && self.cancelled)
        &&& self.offset <= self.device_size
        &&& self.index == self.list().len() ==> self.offset == 0
        &&& self.seed@.len() == seed_len(self.prng.state().kind)
        &&& self.device_size * self.total_passes() <= u64::MAX
        &&& self.expected_total == expected_bytes(self.device_size as nat, self.method@, self.rounds as nat, self.verify@)
        &&& self.progress.sync_status == (self.stage == Stage::Sync || self.stage == Stage::CancelSync)
        &&& self.progress.round_count == self.rounds
        &&& self.progress.pass_count == round_writes(self.method@).len()
        &&& self.progress.round_working == self.round
        &&& self.index < self.list().len() ==> self.progress.pass_working == self.index + 1
        &&& (self.stage == Stage::Stream || self.stage == Stage::Sync || self.stage == Stage::CancelSync)
            ==> self.progress.pass_type == pass_type_of(self.current())
        &&& self.stage == Stage::Seek ==> self.offset == 0
        &&& self.stage == Stage::Stream && self.offset < self.device_size ==> {
            &&& self.offset == self.block * BUF
            &&& (self.current().kind == PassKind::Pattern || self.current().kind == PassKind::VerifyPattern)
                ==> self.buffer@ == tile(self.current().pattern, BUF_LEN as nat)
            &&& (self.current().kind == PassKind::Prng || self.current().kind == PassKind::VerifyPrng) ==> {
                let k = self.prng.state().kind;
                let r = block_requests(self.block as nat);
                let len = chunk_spec(self.device_size as nat, self.offset as nat);
                &&& self.prng.state().seed == self.seed@
                &&& self.prng.state().requests == r.push(len)
                &&& self.buffer@.subrange(0, len as int) == prng_output(k, self.seed@, r, len)
                &&& len % 8 == 0 ==> joins(k, self.seed@, r, len)
                &&& forall|b: nat|
                    self.pass_bytes@ + #[trigger] prng_output(k, self.seed@, r, b) == prng_output(
                        k,
                        self.seed@,
                        Seq::empty(),
                        (self.offset + b) as nat,
                    )
            }
        }
        &&& (self.stage == Stage::Stream || self.stage == Stage::Sync) && (self.current().kind == PassKind::Prng
            || self.current().kind == PassKind::VerifyPrng) ==> lengths_hold(
            self.prng.state().kind,
            self.seed@,
            Seq::empty(),
        )
        &&& (self.stage == Stage::Stream || self.stage == Stage::Sync) ==> self.pass_bytes@ == self.content().subrange(
            0,
            self.offset as int,
        )
        &&& self.stage == Stage::Sync ==> self.offset == self.device_size && self.writing
        &&& self.progress.bytes_written == self.device_size * self.writes_done() + if self.writing {
            self.offset as nat
        } else {
            0
        }
        &&& self.progress.bytes_total == self.device_size * self.passes_done() + self.offset
        &&& self.progress.bytes_total == self.progress.bytes_written + self.progress.bytes_verified
        &&& self.offset > 0 ==> self.passes_done() < self.total_passes()
        &&& self.progress.round_percent <= 100
        &&& self.progress.pass_percent <= 100
        &&& self.stage != Stage::Done && !is_write(self.current()) ==> self.last_written@ == self.content()
    }
}

/// What the progress shows for a pass.
pub open spec fn pass_type_of(p: PassSpec) -> PassType {
    if is_write(p) {
        if p.final_blank {
            PassType::FinalBlank
        } else {
            PassType::Write
        }
    } else {
        PassType::Verify
    }
}

/// The bytes a wipe is expected to move in all, as its time estimate counts
/// them: every write pass of every round, and as much again when verifying.
pub open spec fn expected_bytes(size: nat, m: WipeMethod, rounds: nat, verify: bool) -> nat {
    size * (rounds * round_writes(m).len() * if verify {
        2nat
    } else {
        1nat
    })
}

/// Seconds between `start` and `now`, or 0 when the clock went back.
pub open spec fn elapsed_spec(start: nat, now: nat) -> nat {
    if now > start {
        (now - start) as nat
    } else {
        0
    }
}

/// The passes a wipe runs, in order: the passes of one round, `rounds`
/// times, then the passes after all rounds.
pub open spec fn schedule(m: WipeMethod, verify: bool, rounds: nat) -> Seq<PassSpec> {
    let r = with_verify(round_writes(m), verify);
    Seq::new(rounds * r.len(), |i: int| r[i % r.len() as int]) + with_verify(final_writes(m), verify)
}

/// The passes a wipe with method `m`, `rounds` rounds and verification as
/// `verify` says runs in all.
pub open spec fn schedule_len(m: WipeMethod, rounds: nat, verify: bool) -> nat {
    rounds * with_verify(round_writes(m), verify).len() + with_verify(final_writes(m), verify).len()
}

/// Whether a wipe can be set up: the names are known, there is a round, and
/// the byte counters fit in 64 bits.
pub open spec fn config_ok(method: Seq<char>, prng: Seq<char>, rounds: nat, verify: bool, size: nat) -> bool {
    &&& method_named(method) is Some
    &&& rounds >= 1
    &&& kind_named(prng) is Some
    &&& size * schedule_len(method_named(method)->0, rounds, verify) <= u64::MAX
}

impl Wiper {
    pub closed spec fn buffer_view(&self) -> Seq<u8> {
        self.buffer@
    }

    /// Where the current chunk starts in the buffer.
    pub open spec fn chunk_start_spec(&self) -> nat {
        if self.current().kind == PassKind::Pattern || self.current().kind == PassKind::VerifyPattern {
            pattern_start(self.current().pattern, self.offset_of())
        } else {
            0
        }
    }

    /// Sets up the wipe of a device of `device_size` bytes with the method and
    /// generator of these names, `rounds` rounds, and a verify pass after each
    /// write pass when `verify` holds; the clock reads `start_time`.
    pub fn new(method: &str, prng: &str, rounds: u32, verify: bool, device_size: u64, start_time: u64) -> (r: Result<Wiper, ConfigError>)
        ensures
            method_named(method@) is None ==> r == Err::<Wiper, ConfigError>(ConfigError::UnknownMethod),
            method_named(method@) is Some && rounds == 0 ==> r == Err::<Wiper, ConfigError>(ConfigError::InvalidRounds),
            method_named(method@) is Some && rounds >= 1 && kind_named(prng@) is None ==> r == Err::<Wiper, ConfigError>(
                ConfigError::UnknownPrng,
            ),
            r == Err::<Wiper, ConfigError>(ConfigError::TooLarge) <==> (method_named(method@) is Some && rounds >= 1
                && kind_named(prng@) is Some && !config_ok(method@, prng@, rounds as nat, verify, device_size as nat)),
            r is Ok || r == Err::<Wiper, ConfigError>(ConfigError::EntropyUnavailable) <==> config_ok(
                method@,
                prng@,
                rounds as nat,
                verify,
                device_size as nat,
            ),
            r is Ok ==> {
                let w = r->Ok_0;
                &&& w.well_formed()
                &&& w.stage_of() == Stage::Seek
                &&& w.method_of() == method_named(method@)->0
                &&& w.verify_of_wipe() == verify
                &&& w.rounds_of() == rounds
                &&& w.size() == device_size
                &&& Some(w.prng_state().kind) == kind_named(prng@)
                &&& w.passes_done() == 0
                &&& w.total_passes() == schedule_len(w.method_of(), rounds as nat, verify)
                &&& w.progress_of().bytes_total == 0
                &&& w.progress_of().bytes_written == 0
                &&& w.progress_of().bytes_verified == 0
                &&& w.failure_of() is None
                &&& !w.cancelled_of()
                &&& w.progress_of().round_count == rounds
                &&& w.progress_of().pass_count == round_writes(w.method_of()).len()
                &&& w.progress_of().round_working == 1
                &&& w.progress_of().pass_working == 1
                &&& w.progress_of().pass_type == PassType::Idle
                &&& !w.progress_of().sync_status
            },
    {
        let m = match method_from_name(method) {
            None => {
                return Err(ConfigError::UnknownMethod);
            },
            Some(m) => m,
        };
        if rounds == 0 {
            return Err(ConfigError::InvalidRounds);
        }
        let kind = match prng_kind_from_name(prng) {
            None => {
                return Err(ConfigError::UnknownPrng);
            },
            Some(k) => k,
        };
        let round_list = round_passes(m, verify);
        let final_list = final_passes(m, verify);
        proof {
            lemma_round_views(m, verify);
        }
        let rl = round_list.len() as u64;
        let fl = final_list.len() as u64;
        assert((rounds as u64) * rl <= 0xFFFF_FFFFu64 * 70) by (nonlinear_arith)
            requires
                rl <= 70,
                rounds <= 0xFFFF_FFFFu64,
        ;
        let passes = (rounds as u64) * rl + fl;
        assert((device_size as u128) * (passes as u128) <= 0xFFFF_FFFF_FFFF_FFFFu128 * 0xFFFF_FFFF_FFFF_FFFFu128)
            by (nonlinear_arith)
            requires
                device_size <= 0xFFFF_FFFF_FFFF_FFFFu64,
                passes <= 0xFFFF_FFFF_FFFF_FFFFu64,
        ;
        if (device_size as u128) * (passes as u128) > u64::MAX as u128 {
            return Err(ConfigError::TooLarge);
        }
        // Drawing the generator's first seed here makes a missing entropy
        // source fail the setup, before any device I/O.
        let g = match init_prng(prng) {
            Ok(g) => g,
            Err(_) => {
                return Err(ConfigError::EntropyUnavailable);
            },
        };
        let per: u64 = if verify {
            2 * (write_count(m) as u64)
        } else {
            write_count(m) as u64
        };
        proof {
            lemma_with_verify(round_writes(m), verify);
            assert(per == rl);
            assert((device_size as int) * ((rounds as int) * (per as int)) <= (device_size as int) * (passes as int))
                by (nonlinear_arith)
                requires
                    (rounds as int) * (per as int) <= passes as int,
            ;
        }
        let expected = device_size * ((rounds as u64) * per);
        proof {
            assert(expected == expected_bytes(device_size as nat, m, rounds as nat, verify)) by (nonlinear_arith)
                requires
                    expected == (device_size as int) * ((rounds as int) * (per as int)),
                    per == round_writes(m).len() * (if verify { 2int } else { 1int }),
            ;
        }
        let seed = zeroed(seed_length(g.kind()));
        let writing = match round_list[0].kind {
            PassKind::Pattern | PassKind::Prng => true,
            _ => false,
        };
        let mut progress = Progress::new();
        progress.round_count = rounds;
        progress.round_working = 1;
        progress.pass_count = write_count(m);
        progress.pass_working = 1;
        let w = Wiper {
            device_size,
            rounds,
            round_list,
            final_list,
            round: 1,
            in_final: false,
            index: 0,
            stage: Stage::Seek,
            writing,
            offset: 0,
            block: 0,
            buffer: zeroed(BUF_LEN),
            prng: g,
            seed,
            progress,
            expected_total: expected,
            start_time,
            failure: None,
            cancelled: false,
            method: Ghost(m),
            verify: Ghost(verify),
            pass_bytes: Ghost(Seq::empty()),
            last_written: Ghost(Seq::empty()),
        };
        assert(w.round - 1 == 0);
        assert(0 * w.round_views().len() == 0);
        assert(0 * w.writes_per_round() == 0);
        assert(w.passes_done() == 0);
        assert(w.writes_done() == 0);
        proof {
            lemma_next_expects(w.round_views(), 0, m, verify, false, 0, false);
        }
        Ok(w)
    }

    /// The pattern and generator bytes the next write is taken from.
    pub fn buffer(&self) -> (r: &Vec<u8>)
        ensures
            r@ == self.buffer_view(),
    {
        &self.buffer
    }

    /// Where the current chunk starts in the buffer.
    fn chunk_start(&self) -> (r: usize)
        requires
            self.well_formed(),
            self.stage_of() == Stage::Stream,
        ensures
            r == self.chunk_start_spec(),
            r <= 15,
    {
        let (kind, plen) = if self.in_final {
            (self.final_list[self.index].kind, self.final_list[self.index].pattern.len())
        } else {
            (self.round_list[self.index].kind, self.round_list[self.index].pattern.len())
        };
        assert(self.list()[self.index as int] == self.current());
        match kind {
            PassKind::Pattern | PassKind::VerifyPattern => {
                assert(1 <= plen <= 16);
                (self.offset % (plen as u64)) as usize
            },
            _ => 0,
        }
    }

    /// What the caller must do next.
    pub fn next_action(&self) -> (r: Action)
        requires
            self.well_formed(),
        ensures
            (r == Action::Seek) == (self.stage_of() == Stage::Seek),
            (r == Action::Sync) == (self.stage_of() == Stage::Sync || self.stage_of() == Stage::CancelSync),
            (r == Action::Done) == (self.stage_of() == Stage::Done),
            self.stage_of() == Stage::Stream && is_write(self.current()) ==> r == (Action::Write {
                start: self.chunk_start_spec() as usize,
                len: chunk_spec(self.size(), self.offset_of()) as usize,
            }),
            self.stage_of() == Stage::Stream && !is_write(self.current()) ==> r == (Action::Read {
                len: chunk_spec(self.size(), self.offset_of()) as usize,
            }),
            r matches Action::Write { start, len } ==> {
                &&& start + len <= self.buffer_view().len()
                &&& self.buffer_view().subrange(start as int, start + len) == self.content().subrange(
                    self.offset_of() as int,
                    self.offset_of() + len,
                )
            },
    {
        match self.stage {
            Stage::Seek => Action::Seek,
            Stage::Sync | Stage::CancelSync => Action::Sync,
            Stage::Done => Action::Done,
            Stage::Stream => {
                let len = chunk_len(self.device_size, self.offset);
                if self.writing {
                    let start = self.chunk_start();
                    proof {
                        self.lemma_chunk_matches(len as nat);
                    }
                    Action::Write { start, len }
                } else {
                    Action::Read { len }
                }
            },
        }
    }

    /// The chunk of the buffer at the current offset holds what the pass
    /// covers the device with there.
    proof fn lemma_chunk_matches(&self, len: nat)
        requires
            self.well_formed(),
            self.stage_of() == Stage::Stream,
            len == chunk_spec(self.size(), self.offset_of()),
        ensures
            self.chunk_start_spec() + len <= self.buffer_view().len(),
            self.buffer_view().subrange(self.chunk_start_spec() as int, (self.chunk_start_spec() + len) as int)
                == self.content().subrange(self.offset_of() as int, (self.offset_of() + len) as int),
    {
        let p = self.current();
        assert(self.list()[self.index as int] == p);
        if self.offset == self.device_size {
            assert(self.buffer_view().subrange(self.chunk_start_spec() as int, self.chunk_start_spec() as int)
                =~= self.content().subrange(self.offset_of() as int, self.offset_of() as int));
        } else if p.kind == PassKind::Pattern || p.kind == PassKind::VerifyPattern {
            lemma_pattern_chunk(p.pattern, BUF_LEN as nat, self.device_size as nat, self.offset as nat, len);
        } else {
            let k = self.prng.state().kind;
            assert(self.content().len() == self.device_size);
            lemma_stream_chunk(
                k,
                self.seed@,
                self.pass_bytes@,
                block_requests(self.block as nat),
                self.offset as nat,
                self.device_size as nat,
                len,
            );
            assert(self.buffer@.subrange(0, len as int) =~= self.buffer_view().subrange(0, len as int));
        }
    }
}

/// The write passes in one round of method `m`.
pub fn write_count(m: WipeMethod) -> (r: u32)
    ensures
        r == round_writes(m).len(),
{
    match m {
        WipeMethod::Zero => 1,
        WipeMethod::Random => 1,
        WipeMethod::Dod | WipeMethod::Ops2 => 3,
        WipeMethod::Gutmann => 35,
    }
}

/// The schedule of a method has at least one pass per round, and patterns
/// of 1 to 16 bytes.
pub proof fn lemma_round_views(m: WipeMethod, verify: bool)
    ensures
        with_verify(round_writes(m), verify).len() >= 1,
        with_verify(round_writes(m), verify).len() <= 70,
        with_verify(final_writes(m), verify).len() <= 2,
        well_formed_passes(with_verify(round_writes(m), verify)),
        well_formed_passes(with_verify(final_writes(m), verify)),
{
    lemma_with_verify(round_writes(m), verify);
    lemma_with_verify(final_writes(m), verify);
    assert(round_writes(m).len() >= 1);
    assert forall|i: int| 0 <= i < round_writes(m).len() implies {
        let p = #[trigger] round_writes(m)[i];
        &&& is_write(p)
        &&& p.kind == PassKind::Pattern ==> 1 <= p.pattern.len() <= 16
    } by {
        if m == WipeMethod::Gutmann {
            if 4 <= i < 31 {
                assert(round_writes(m)[i] == pattern_pass(gutmann_patterns()[i - 4]));
            }
        }
    }
}

/// Each write pass of `ws` gives one or two passes; the patterns stay.
pub proof fn lemma_with_verify(ws: Seq<PassSpec>, verify: bool)
    ensures
        with_verify(ws, verify).len() == if verify {
            2 * ws.len()
        } else {
            ws.len()
        },
        (forall|i: int|
            0 <= i < ws.len() ==> {
                let p = #[trigger] ws[i];
                &&& is_write(p)
                &&& p.kind == PassKind::Pattern ==> 1 <= p.pattern.len() <= 16
            }) ==> well_formed_passes(with_verify(ws, verify)),
    decreases ws.len(),
{
    if ws.len() > 0 {
        lemma_with_verify(ws.drop_last(), verify);
        let v = with_verify(ws, verify);
        let w = with_verify(ws.drop_last(), verify);
        if forall|i: int|
            0 <= i < ws.len() ==> {
                let p = #[trigger] ws[i];
                &&& is_write(p)
                &&& p.kind == PassKind::Pattern ==> 1 <= p.pattern.len() <= 16
            } {
            assert forall|i: int| 0 <= i < ws.drop_last().len() implies {
                let p = #[trigger] ws.drop_last()[i];
                &&& is_write(p)
                &&& p.kind == PassKind::Pattern ==> 1 <= p.pattern.len() <= 16
            } by {
                assert(ws.drop_last()[i] == ws[i]);
            }
            assert forall|i: int| 0 <= i < v.len() implies {
                let p = #[trigger] v[i];
                (p.kind == PassKind::Pattern || p.kind == PassKind::VerifyPattern) ==> 1 <= p.pattern.len() <= 16
            } by {
                if i < w.len() {
                    assert(v[i] == w[i]);
                } else {
                    assert(ws.last() == ws[ws.len() - 1]);
                }
            }
        }
    }
}

/// `b` wipes the same device in the same way as `a`: the same size, method,
/// rounds, verification, schedule length, expected total, start time and
/// kind of generator.
pub open spec fn same_setup(a: Wiper, b: Wiper) -> bool {
    &&& b.size() == a.size()
    &&& b.method_of() == a.method_of()
    &&& b.rounds_of() == a.rounds_of()
    &&& b.verify_of_wipe() == a.verify_of_wipe()
    &&& b.total_passes() == a.total_passes()
    &&& b.expected_of() == a.expected_of()
    &&& b.start_of() == a.start_of()
    &&& b.prng_state().kind == a.prng_state().kind
}

/// The byte counters of `b` are those of `a` or more.
pub open spec fn counters_grow(a: Progress, b: Progress) -> bool {
    &&& a.bytes_written <= b.bytes_written
    &&& a.bytes_verified <= b.bytes_verified
    &&& a.bytes_total <= b.bytes_total
}

impl Wiper {
    /// Before the last pass completes there is room for a whole pass more in
    /// the byte counters.
    proof fn lemma_room(&self)
        requires
            self.well_formed(),
            self.index < self.list().len(),
        ensures
            self.passes_done() + 1 <= self.total_passes(),
            self.device_size * self.passes_done() + self.device_size <= self.device_size * self.total_passes(),
            self.device_size * self.writes_done() <= self.device_size * self.passes_done(),
    {
        let l = self.round_views().len() as int;
        let f = self.final_views().len() as int;
        let r = self.round as int;
        let rs = self.rounds as int;
        let i = self.index as int;
        let d = self.device_size as int;
        self.lemma_writes_le_passes();
        if self.in_final {
            assert(self.passes_done() + 1 <= self.total_passes());
        } else {
            assert((r - 1) * l + l == r * l) by (nonlinear_arith);
            assert(r * l <= rs * l) by (nonlinear_arith)
                requires
                    r <= rs,
                    l >= 0,
            ;
        }
        let pd = self.passes_done() as int;
        let tp = self.total_passes() as int;
        let wd = self.writes_done() as int;
        assert(d * pd + d <= d * tp) by (nonlinear_arith)
            requires
                pd + 1 <= tp,
                d >= 0,
        ;
        assert(d * wd <= d * pd) by (nonlinear_arith)
            requires
                wd <= pd,
                d >= 0,
        ;
    }

    /// No more write passes are done than passes.
    proof fn lemma_writes_le_passes(&self)
        requires
            self.well_formed(),
        ensures
            self.writes_done() <= self.passes_done(),
    {
        let l = self.round_views().len() as int;
        let r = self.round as int;
        let rs = self.rounds as int;
        let p = self.writes_per_round() as int;
        lemma_writes_in_le(self.round_views(), l);
        lemma_writes_in_le(self.list(), self.index as int);
        if self.in_final {
            assert(rs * p <= rs * l) by (nonlinear_arith)
                requires
                    p <= l,
                    rs >= 0,
            ;
        } else {
            assert((r - 1) * p <= (r - 1) * l) by (nonlinear_arith)
                requires
                    p <= l,
                    r >= 1,
            ;
        }
    }

    /// Ends the wipe with `failure`.
    fn fail(&mut self, failure: WipeFailure)
        requires
            old(self).well_formed(),
        ensures
            final(self).well_formed(),
            *final(self) == (Wiper {
                stage: Stage::Done,
                failure: Some(failure),
                progress: Progress { sync_status: false, ..old(self).progress },
                ..*old(self)
            }),
    {
        self.progress.sync_status = false;
        self.stage = Stage::Done;
        self.failure = Some(failure);
    }

    /// Completes the current pass and moves to the next one, or ends the wipe
    /// after the last.
    #[verifier::rlimit(50)]
    fn finish_pass(&mut self)
        requires
            old(self).well_formed(),
            old(self).stage_of() == Stage::Stream || old(self).stage_of() == Stage::Sync || old(self).stage_of()
                == Stage::Seek,
            old(self).offset_of() == old(self).size(),
            old(self).failure_of() is None,
            !old(self).cancelled_of(),
            old(self).pass_bytes() == old(self).content(),
        ensures
            final(self).well_formed(),
            same_setup(*old(self), *final(self)),
            final(self).progress_of() == (Progress {
                round_percent: round_percent_spec(old(self).index_of(), old(self).list().len(), 100) as u64,
                pass_percent: 100,
                sync_status: false,
                round_working: final(self).progress_of().round_working,
                pass_working: final(self).progress_of().pass_working,
                ..old(self).progress_of()
            }),
            final(self).stage_of() == Stage::Seek || final(self).stage_of() == Stage::Done,
            final(self).failure_of() is None,
            !final(self).cancelled_of(),
            counters_grow(old(self).progress_of(), final(self).progress_of()),
            final(self).passes_done() == old(self).passes_done() + 1,
            final(self).total_passes() == old(self).total_passes(),
            (final(self).stage_of() == Stage::Done) == (final(self).passes_done() == final(self).total_passes()),
            final(self).seed_of() == old(self).seed_of(),
            final(self).progress_of().bytes_written == old(self).progress_of().bytes_written,
            final(self).progress_of().bytes_verified == old(self).progress_of().bytes_verified,
            final(self).progress_of().bytes_total == old(self).progress_of().bytes_total,
            old(self).index + 1 == old(self).list().len() ==> final(self).progress_of().round_percent == 100,
    {
        proof {
            self.lemma_room();
        }
        let ghost old_w = *self;
        if self.writing {
            self.last_written = Ghost(self.pass_bytes@);
        }
        let count = if self.in_final {
            self.final_list.len()
        } else {
            self.round_list.len()
        };
        self.progress.round_percent = round_percent(self.index as u64, count as u64, 100);
        self.progress.pass_percent = 100;
        self.progress.sync_status = false;
        self.index = self.index + 1;
        self.offset = 0;
        self.block = 0;
        self.pass_bytes = Ghost(Seq::empty());
        proof {
            let l = self.round_views().len() as int;
            let r = self.round as int;
            let d = self.device_size as int;
            let p = self.writes_per_round() as int;
            assert(writes_in(self.list(), self.index as int) == writes_in(self.list(), old_w.index as int) + if is_write(
                old_w.current(),
            ) {
                1nat
            } else {
                0nat
            });
            let wd = old_w.writes_done() as int;
            let pd = old_w.passes_done() as int;
            assert(d * (wd + 1) == d * wd + d) by (nonlinear_arith);
            assert(d * (pd + 1) == d * pd + d) by (nonlinear_arith);
        }
        if self.index == count {
            if !self.in_final && self.round < self.rounds {
                proof {
                    let l = self.round_views().len() as int;
                    let r = self.round as int;
                    let p = self.writes_per_round() as int;
                    assert((r - 1) * l + l == r * l) by (nonlinear_arith);
                    assert((r - 1) * p + p == r * p) by (nonlinear_arith);
                }
                self.round = self.round + 1;
                self.index = 0;
            } else if !self.in_final && self.final_list.len() > 0 {
                proof {
                    let l = self.round_views().len() as int;
                    let r = self.round as int;
                    let p = self.writes_per_round() as int;
                    assert((r - 1) * l + l == r * l) by (nonlinear_arith);
                    assert((r - 1) * p + p == r * p) by (nonlinear_arith);
                }
                self.in_final = true;
                self.index = 0;
            } else {
                self.stage = Stage::Done;
                self.writing = false;
                proof {
                    let l = self.round_views().len() as int;
                    let r = self.round as int;
                    assert((r - 1) * l + l == r * l) by (nonlinear_arith);
                }
                return;
            }
        }
        let (kind, fin) = if self.in_final {
            (self.final_list[self.index].kind, self.final_list[self.index].final_blank)
        } else {
            (self.round_list[self.index].kind, self.round_list[self.index].final_blank)
        };
        assert(self.list()[self.index as int] == self.current());
        proof {
            lemma_next_expects(
                self.list(),
                self.index as int,
                self.method@,
                self.verify@,
                self.in_final,
                old_w.index as int,
                old_w.in_final,
            );
            if !is_write(self.current()) {
                assert(old_w.current() == self.list()[self.index - 1]);
                lemma_verify_expects_written(old_w.current(), self.prng.state().kind, self.seed@, self.device_size as nat);
            }
        }
        self.writing = match kind {
            PassKind::Pattern | PassKind::Prng => true,
            _ => false,
        };
        self.stage = Stage::Seek;
        proof {
            lemma_round_views(self.method@, self.verify@);
        }
        self.progress.round_working = self.round;
        self.progress.pass_working = (self.index + 1) as u32;
        proof {
            self.lemma_room();
        }
    }

    /// Takes the outcome of a sync: a cancelled wipe ends, a failed sync ends
    /// the wipe, and otherwise the pass is complete.
    pub fn sync_done(&mut self, ok: bool)
        requires
            old(self).well_formed(),
            old(self).stage_of() == Stage::Sync || old(self).stage_of() == Stage::CancelSync,
        ensures
            final(self).well_formed(),
            same_setup(*old(self), *final(self)),
            counters_grow(old(self).progress_of(), final(self).progress_of()),
            old(self).stage_of() == Stage::CancelSync ==> final(self).stage_of() == Stage::Done
                && final(self).cancelled_of() && final(self).failure_of() == old(self).failure_of(),
            old(self).stage_of() == Stage::Sync && !ok ==> final(self).stage_of() == Stage::Done
                && final(self).failure_of() == Some(WipeFailure::Io),
            old(self).stage_of() == Stage::Sync && ok ==> final(self).failure_of() is None
                && !final(self).cancelled_of()
                && (final(self).stage_of() == Stage::Seek || final(self).stage_of() == Stage::Done),
            old(self).stage_of() == Stage::Sync && ok && old(self).index_of() + 1 == old(self).list().len()
                ==> final(self).progress_of().round_percent == 100,
            old(self).stage_of() == Stage::Sync && ok ==> final(self).passes_done() == old(self).passes_done() + 1,
            !final(self).progress_of().sync_status,
            final(self).progress_of().bytes_written == old(self).progress_of().bytes_written,
            final(self).progress_of().bytes_verified == old(self).progress_of().bytes_verified,
            final(self).progress_of().bytes_total == old(self).progress_of().bytes_total,
            old(self).stage_of() == Stage::Sync && ok ==> final(self).progress_of().pass_percent == 100
                && final(self).progress_of().round_percent == round_percent_spec(
                old(self).index_of(),
                old(self).list().len(),
                100,
            ),
            old(self).stage_of() == Stage::Sync && ok ==> ((final(self).stage_of() == Stage::Done)
                == (final(self).passes_done() == final(self).total_passes())),
            final(self).total_passes() == old(self).total_passes(),
    {
        if self.stage == Stage::CancelSync {
            self.progress.sync_status = false;
            self.stage = Stage::Done;
            return;
        }
        if !ok {
            self.fail(WipeFailure::Io);
            return;
        }
        assert(self.content().len() == self.device_size);
        assert(self.content().subrange(0, self.offset as int) =~= self.content());
        self.finish_pass();
    }
}

/// Counting write passes never counts more than the passes counted.
pub proof fn lemma_writes_in_le(ps: Seq<PassSpec>, n: int)
    requires
        0 <= n <= ps.len(),
    ensures
        writes_in(ps, n) <= n,
    decreases n,
{
    if n > 0 {
        lemma_writes_in_le(ps, n - 1);
    }
}

impl Wiper {
    /// Takes the outcome of positioning the device at offset 0, and starts
    /// the current pass: a pattern pass fills the buffer with its pattern, a
    /// generator write pass draws a fresh seed, and a generator verify pass
    /// starts the stream over from the seed of the write pass before it.
    #[verifier::rlimit(60)]
    pub fn seek_done(&mut self, ok: bool, now: u64)
        requires
            old(self).well_formed(),
            old(self).stage_of() == Stage::Seek,
        ensures
            final(self).well_formed(),
            same_setup(*old(self), *final(self)),
            counters_grow(old(self).progress_of(), final(self).progress_of()),
            !ok ==> final(self).stage_of() == Stage::Done && final(self).failure_of() == Some(WipeFailure::Io),
            ok && old(self).current().kind != PassKind::Prng ==> final(self).failure_of() is None,
            final(self).failure_of() == Some(WipeFailure::Entropy) ==> ok && old(self).current().kind
                == PassKind::Prng,
            final(self).failure_of() is None ==> !final(self).cancelled_of(),
            ok && final(self).failure_of() is None && old(self).size() > 0 ==> {
                &&& final(self).stage_of() == Stage::Stream
                &&& final(self).current() == old(self).current()
                &&& final(self).offset_of() == 0
                &&& final(self).pass_bytes() == Seq::<u8>::empty()
                &&& final(self).passes_done() == old(self).passes_done()
            },
            ok && final(self).failure_of() is None && old(self).size() == 0 ==> (if is_write(old(self).current()) {
                final(self).stage_of() == Stage::Sync
            } else {
                final(self).stage_of() == Stage::Seek || final(self).stage_of() == Stage::Done
            }),
            old(self).current().kind == PassKind::VerifyPrng ==> final(self).seed_of() == old(self).seed_of(),
            old(self).current().kind == PassKind::Prng && final(self).failure_of() is None
                ==> final(self).seed_of().len() == seed_len(old(self).prng_state().kind),
            final(self).total_passes() == old(self).total_passes(),
            final(self).progress_of().bytes_written == old(self).progress_of().bytes_written,
            final(self).progress_of().bytes_verified == old(self).progress_of().bytes_verified,
            final(self).progress_of().bytes_total == old(self).progress_of().bytes_total,
            final(self).failure_of() is Some ==> final(self).progress_of() == old(self).progress_of(),
            ok && final(self).failure_of() is None ==> {
                let p = final(self).progress_of();
                &&& p.pass_type == pass_type_of(old(self).current())
                &&& p.pass_percent == pass_percent_spec(0, old(self).size())
                &&& p.round_percent == round_percent_spec(
                    old(self).index_of(),
                    old(self).list().len(),
                    p.pass_percent as nat,
                )
                &&& p.throughput == throughput_spec(
                    old(self).progress_of().bytes_total as nat,
                    elapsed_spec(old(self).start_of(), now as nat),
                )
                &&& p.eta == eta_spec(old(self).expected_of(), old(self).progress_of().bytes_total as nat, p.throughput as nat)
            },
            ok && final(self).failure_of() is None && old(self).size() == 0 && is_write(old(self).current())
                ==> final(self).passes_done() == old(self).passes_done() && final(self).current() == old(self).current(),
            ok && final(self).failure_of() is None && old(self).size() == 0 && !is_write(old(self).current()) ==> {
                &&& final(self).passes_done() == old(self).passes_done() + 1
                &&& (final(self).stage_of() == Stage::Done) == (final(self).passes_done() == final(self).total_passes())
            },
    {
        if !ok {
            self.fail(WipeFailure::Io);
            return;
        }
        let (kind, fin) = if self.in_final {
            (self.final_list[self.index].kind, self.final_list[self.index].final_blank)
        } else {
            (self.round_list[self.index].kind, self.round_list[self.index].final_blank)
        };
        assert(self.list()[self.index as int] == self.current());
        match kind {
            PassKind::Pattern | PassKind::VerifyPattern => {
                if self.in_final {
                    fill_pattern(&mut self.buffer, &self.final_list[self.index].pattern);
                } else {
                    fill_pattern(&mut self.buffer, &self.round_list[self.index].pattern);
                }
            },
            PassKind::Prng => {
                match seed_from_entropy(self.prng.kind()) {
                    Ok(seed) => {
                        self.seed = seed;
                    },
                    Err(_) => {
                        self.fail(WipeFailure::Entropy);
                        return;
                    },
                }
                self.prng.reseed(&self.seed);
                let len = chunk_len(self.device_size, 0);
                self.prng.fill_front(&mut self.buffer, len);
            },
            PassKind::VerifyPrng => {
                self.prng.reseed(&self.seed);
                let len = chunk_len(self.device_size, 0);
                self.prng.fill_front(&mut self.buffer, len);
            },
        }
        proof {
            assert(block_requests(0) =~= Seq::<nat>::empty());
            let k = self.prng.state().kind;
            assert forall|b: nat|
                Seq::<u8>::empty() + #[trigger] prng_output(k, self.seed@, block_requests(0), b) == prng_output(
                    k,
                    self.seed@,
                    Seq::empty(),
                    0 + b,
                ) by {
                assert(Seq::<u8>::empty() + prng_output(k, self.seed@, block_requests(0), b) =~= prng_output(
                    k,
                    self.seed@,
                    block_requests(0),
                    b,
                ));
            }
        }
        self.offset = 0;
        self.block = 0;
        self.pass_bytes = Ghost(Seq::empty());
        self.progress.pass_type = match kind {
            PassKind::Pattern | PassKind::Prng => if fin {
                PassType::FinalBlank
            } else {
                PassType::Write
            },
            _ => PassType::Verify,
        };
        let count = if self.in_final {
            self.final_list.len()
        } else {
            self.round_list.len()
        };
        let elapsed = if now > self.start_time {
            now - self.start_time
        } else {
            0
        };
        self.progress = advance_progress(
            self.progress,
            0,
            self.device_size,
            self.index as u64,
            count as u64,
            self.expected_total,
            elapsed,
        );
        assert(self.content().subrange(0, 0) =~= Seq::<u8>::empty());
        if self.device_size == 0 {
            if self.writing {
                self.stage = Stage::Sync;
                self.progress.sync_status = true;
            } else {
                assert(self.content() =~= Seq::<u8>::empty());
                self.finish_pass();
            }
        } else {
            self.stage = Stage::Stream;
        }
    }

    /// Takes the outcome of writing the chunk `next_action` asked for. A
    /// failed write ends the wipe; after a write, a cancellation ends the pass
    /// and asks for a sync; the last chunk of a pass asks for a sync.
    pub fn write_done(&mut self, ok: bool, cancel: bool, now: u64)
        requires
            old(self).well_formed(),
            old(self).stage_of() == Stage::Stream,
            is_write(old(self).current()),
            old(self).offset_of() < old(self).size(),
        ensures
            final(self).well_formed(),
            same_setup(*old(self), *final(self)),
            counters_grow(old(self).progress_of(), final(self).progress_of()),
            !ok ==> final(self).stage_of() == Stage::Done && final(self).failure_of() == Some(WipeFailure::Io),
            !ok ==> final(self).progress_of() == old(self).progress_of(),
            final(self).total_passes() == old(self).total_passes(),
            ok ==> {
                let len = chunk_spec(old(self).size(), old(self).offset_of());
                let p = final(self).progress_of();
                &&& p.bytes_total == old(self).progress_of().bytes_total + len
                &&& p.pass_type == old(self).progress_of().pass_type
                &&& p.pass_percent == pass_percent_spec(final(self).offset_of(), old(self).size())
                &&& p.round_percent == round_percent_spec(
                    old(self).index_of(),
                    old(self).list().len(),
                    p.pass_percent as nat,
                )
                &&& p.throughput == throughput_spec(p.bytes_total as nat, elapsed_spec(old(self).start_of(), now as nat))
                &&& p.eta == eta_spec(old(self).expected_of(), p.bytes_total as nat, p.throughput as nat)
                &&& final(self).failure_of() is None
                &&& final(self).current() == old(self).current()
                &&& final(self).content() == old(self).content()
                &&& final(self).passes_done() == old(self).passes_done()
                &&& final(self).offset_of() == old(self).offset_of() + len
                &&& final(self).pass_bytes() == old(self).content().subrange(0, final(self).offset_of() as int)
                &&& final(self).progress_of().bytes_written == old(self).progress_of().bytes_written + len
                &&& final(self).progress_of().bytes_verified == old(self).progress_of().bytes_verified
                &&& cancel ==> final(self).stage_of() == Stage::CancelSync
                &&& !cancel ==> final(self).stage_of() == if final(self).offset_of() == old(self).size() {
                    Stage::Sync
                } else {
                    Stage::Stream
                }
            },
    {
        if !ok {
            self.fail(WipeFailure::Io);
            return;
        }
        let len = chunk_len(self.device_size, self.offset);
        let start = self.chunk_start();
        proof {
            self.lemma_chunk_matches(len as nat);
            self.lemma_room();
            self.lemma_block_fits();
        }
        let ghost old_w = *self;
        let ghost chunk = self.buffer@.subrange(start as int, start + len);
        self.offset = self.offset + len as u64;
        self.block = self.block + 1;
        self.progress.bytes_written = self.progress.bytes_written + len as u64;
        self.progress.bytes_total = self.progress.bytes_total + len as u64;
        self.pass_bytes = Ghost(self.pass_bytes@ + chunk);
        proof {
            assert(self.pass_bytes@ =~= self.content().subrange(0, self.offset as int));
            if self.offset < self.device_size {
                assert(len == BUF);
                assert(old_w.block * BUF + BUF == (old_w.block + 1) * BUF) by (nonlinear_arith);
                if old_w.current().kind == PassKind::Prng || old_w.current().kind == PassKind::VerifyPrng {
                    let k = self.prng.state().kind;
                    let r = block_requests(old_w.block as nat);
                    assert(old_w.buffer@.subrange(0, len as int) =~= old_w.buffer_view().subrange(0, len as int));
                    assert(chunk == prng_output(k, self.seed@, r, BUF as nat));
                    lemma_stream_step(k, self.seed@, old_w.pass_bytes@, r, old_w.offset as nat);
                    assert(r.push(BUF as nat) =~= block_requests(self.block as nat));
                }
            }
        }
        let count = if self.in_final {
            self.final_list.len()
        } else {
            self.round_list.len()
        };
        let elapsed = if now > self.start_time {
            now - self.start_time
        } else {
            0
        };
        self.progress = advance_progress(
            self.progress,
            self.offset,
            self.device_size,
            self.index as u64,
            count as u64,
            self.expected_total,
            elapsed,
        );
        if cancel {
            self.cancelled = true;
            self.stage = Stage::CancelSync;
            self.progress.sync_status = true;
            return;
        }
        if self.offset == self.device_size {
            self.stage = Stage::Sync;
            self.progress.sync_status = true;
        } else {
            self.refill();
        }
    }

    /// The count of chunks moved fits in 64 bits with room for one more.
    proof fn lemma_block_fits(&self)
        requires
            self.well_formed(),
            self.stage_of() == Stage::Stream,
            self.offset_of() < self.size(),
        ensures
            self.block + 1 <= u64::MAX,
    {
        assert(self.block <= self.block * BUF) by (nonlinear_arith)
            requires
                self.block >= 0,
        ;
    }

    /// Draws the generator's next chunk into the front of the buffer when
    /// the current pass is a generator pass; a pattern pass keeps its buffer.
    fn refill(&mut self)
        requires
            old(self).stage == Stage::Stream,
            old(self).offset < old(self).device_size,
            old(self).index < old(self).list().len(),
            old(self).buffer@.len() == BUF_LEN,
            old(self).current().kind == PassKind::Prng || old(self).current().kind == PassKind::VerifyPrng
                ==> old(self).prng.state().seed == old(self).seed@ && old(self).prng.state().requests
                == block_requests(old(self).block as nat),
        ensures
            *final(self) == (Wiper { buffer: final(self).buffer, prng: final(self).prng, ..*old(self) }),
            final(self).buffer@.len() == BUF_LEN,
            final(self).prng.state().kind == old(self).prng.state().kind,
            old(self).current().kind == PassKind::Prng || old(self).current().kind == PassKind::VerifyPrng ==> {
                let k = old(self).prng.state().kind;
                let r = block_requests(old(self).block as nat);
                let len = chunk_spec(old(self).device_size as nat, old(self).offset as nat);
                &&& final(self).prng.state().seed == old(self).seed@
                &&& final(self).prng.state().requests == r.push(len)
                &&& final(self).buffer@.subrange(0, len as int) == prng_output(k, old(self).seed@, r, len)
                &&& len % 8 == 0 ==> joins(k, old(self).seed@, r, len)
            },
            !(old(self).current().kind == PassKind::Prng || old(self).current().kind == PassKind::VerifyPrng)
                ==> final(self).buffer == old(self).buffer && final(self).prng == old(self).prng,
    {
        let kind = if self.in_final {
            self.final_list[self.index].kind
        } else {
            self.round_list[self.index].kind
        };
        assert(self.list()[self.index as int] == self.current());
        match kind {
            PassKind::Prng | PassKind::VerifyPrng => {
                let len = chunk_len(self.device_size, self.offset);
                self.prng.fill_front(&mut self.buffer, len);
            },
            _ => {},
        }
    }
}

/// The chunk a generator pass moves at `off` is the stream there: what came
/// before is `p`, and the stream goes on from the requests `r` made so far.
pub proof fn lemma_stream_chunk(k: PrngKind, seed: Seq<u8>, p: Seq<u8>, r: Seq<nat>, off: nat, size: nat, len: nat)
    requires
        forall|b: nat| p + #[trigger] prng_output(k, seed, r, b) == prng_output(k, seed, Seq::empty(), (off + b) as nat),
        p.len() == off,
        off + len <= size,
        len == size - off || joins(k, seed, r, len),
        prng_output(k, seed, r, len).len() == len,
        prng_output(k, seed, Seq::empty(), size).len() == size,
    ensures
        prng_output(k, seed, r, len) == prng_output(k, seed, Seq::empty(), size).subrange(off as int, (off + len) as int),
{
    let rest = (size - off) as nat;
    let whole = prng_output(k, seed, Seq::empty(), size);
    assert(p + prng_output(k, seed, r, rest) == prng_output(k, seed, Seq::empty(), (off + rest) as nat));
    if len == size - off {
        assert(whole.subrange(off as int, (off + len) as int) =~= prng_output(k, seed, r, len));
    } else {
        let more = (rest - len) as nat;
        assert(prng_output(k, seed, r, len) + prng_output(k, seed, r.push(len), more) == prng_output(
            k,
            seed,
            r,
            (len + more) as nat,
        ));
        assert(whole =~= p + (prng_output(k, seed, r, len) + prng_output(k, seed, r.push(len), more)));
        assert(whole.subrange(off as int, (off + len) as int) =~= prng_output(k, seed, r, len));
    }
}

/// After a whole chunk of `BUF` bytes, the bytes so far and the stream that
/// follows the next request still make up the pass's stream.
pub proof fn lemma_stream_step(k: PrngKind, seed: Seq<u8>, p: Seq<u8>, r: Seq<nat>, off: nat)
    requires
        forall|b: nat| p + #[trigger] prng_output(k, seed, r, b) == prng_output(k, seed, Seq::empty(), (off + b) as nat),
        joins(k, seed, r, BUF as nat),
    ensures
        forall|b: nat|
            (p + prng_output(k, seed, r, BUF as nat)) + #[trigger] prng_output(k, seed, r.push(BUF as nat), b)
                == prng_output(k, seed, Seq::empty(), (off + BUF + b) as nat),
{
    assert forall|b: nat|
        (p + prng_output(k, seed, r, BUF as nat)) + #[trigger] prng_output(k, seed, r.push(BUF as nat), b)
            == prng_output(k, seed, Seq::empty(), (off + BUF + b) as nat) by {
        let c = prng_output(k, seed, r, BUF as nat);
        let x = prng_output(k, seed, r.push(BUF as nat), b);
        assert(c + x == prng_output(k, seed, r, (BUF + b) as nat));
        assert(p + prng_output(k, seed, r, (BUF + b) as nat) == prng_output(k, seed, Seq::empty(), (off + (BUF + b)) as nat));
        assert((p + c) + x =~= p + (c + x));
    }
}

impl Wiper {
    /// Takes the bytes read back for the chunk `next_action` asked for and
    /// compares them with what the pass wrote there. Bytes of the wrong
    /// length end the wipe as a failed read; the first byte that differs ends
    /// it as a mismatch; after a match, a cancellation ends the pass and asks
    /// for a sync, and the last chunk completes the pass.
    pub fn read_done(&mut self, data: &Vec<u8>, cancel: bool, now: u64)
        requires
            old(self).well_formed(),
            old(self).stage_of() == Stage::Stream,
            !is_write(old(self).current()),
            old(self).offset_of() < old(self).size(),
        ensures
            final(self).well_formed(),
            same_setup(*old(self), *final(self)),
            final(self).total_passes() == old(self).total_passes(),
            counters_grow(old(self).progress_of(), final(self).progress_of()),
            ({
                let len = chunk_spec(old(self).size(), old(self).offset_of());
                let off = old(self).offset_of();
                let expected = old(self).content().subrange(off as int, (off + len) as int);
                &&& data@.len() != len ==> final(self).stage_of() == Stage::Done && final(self).failure_of() == Some(
                    WipeFailure::Io,
                )
                &&& data@.len() == len ==> ((final(self).failure_of() is Some) <==> data@ != expected)
                &&& final(self).failure_of() matches Some(WipeFailure::Mismatch { offset, expected: e, found: f })
                    ==> {
                    &&& off <= offset < off + len
                    &&& e == old(self).content()[offset as int]
                    &&& f == data@[offset - off]
                    &&& e != f
                    &&& forall|j: int| off <= j < offset ==> data@[j - off] == old(self).content()[j]
                }
                &&& final(self).failure_of() is Some ==> final(self).stage_of() == Stage::Done
                &&& final(self).failure_of() is Some ==> final(self).progress_of() == old(self).progress_of()
                &&& data@ == expected ==> {
                    let p = final(self).progress_of();
                    &&& p.bytes_total == old(self).progress_of().bytes_total + len
                    &&& p.pass_type == old(self).progress_of().pass_type
                    &&& p.pass_percent == pass_percent_spec(off + len, old(self).size())
                    &&& p.round_percent == round_percent_spec(
                        old(self).index_of(),
                        old(self).list().len(),
                        p.pass_percent as nat,
                    )
                    &&& p.throughput == throughput_spec(
                        p.bytes_total as nat,
                        elapsed_spec(old(self).start_of(), now as nat),
                    )
                    &&& p.eta == eta_spec(old(self).expected_of(), p.bytes_total as nat, p.throughput as nat)
                    &&& final(self).progress_of().bytes_verified == old(self).progress_of().bytes_verified + len
                    &&& final(self).progress_of().bytes_written == old(self).progress_of().bytes_written
                    &&& cancel ==> final(self).stage_of() == Stage::CancelSync
                    &&& !cancel && off + len < old(self).size() ==> {
                        &&& final(self).stage_of() == Stage::Stream
                        &&& final(self).current() == old(self).current()
                        &&& final(self).offset_of() == off + len
                        &&& final(self).pass_bytes() == old(self).content().subrange(0, (off + len) as int)
                    }
                    &&& !cancel && off + len == old(self).size() ==> (final(self).stage_of() == Stage::Seek
                        || final(self).stage_of() == Stage::Done)
                    &&& !cancel && off + len == old(self).size() ==> final(self).passes_done()
                        == old(self).passes_done() + 1
                    &&& !cancel && off + len == old(self).size() ==> ((final(self).stage_of() == Stage::Done)
                        == (final(self).passes_done() == final(self).total_passes()))
                    &&& !cancel && off + len == old(self).size() && old(self).index_of() + 1 == old(self).list().len()
                        ==> final(self).progress_of().round_percent == 100
                }
            }),
    {
        let len = chunk_len(self.device_size, self.offset);
        if data.len() != len {
            self.fail(WipeFailure::Io);
            return;
        }
        let start = self.chunk_start();
        proof {
            self.lemma_chunk_matches(len as nat);
            self.lemma_room();
            self.lemma_block_fits();
        }
        let ghost old_w = *self;
        match first_mismatch(&self.buffer, start, data) {
            Some(i) => {
                let offset = self.offset + i as u64;
                let expected = self.buffer[start + i];
                let found = data[i];
                proof {
                    assert(self.buffer@.subrange(start as int, start + len)[i as int] == self.buffer@[start + i]);
                    assert forall|j: int| old_w.offset <= j < offset implies data@[j - old_w.offset] == old_w.content()[j] by {
                        assert(self.buffer@.subrange(start as int, start + len)[j - old_w.offset] == self.buffer@[start + j - old_w.offset]);
                    }
                }
                self.fail(WipeFailure::Mismatch { offset, expected, found });
                return;
            },
            None => {},
        }
        self.offset = self.offset + len as u64;
        self.block = self.block + 1;
        self.progress.bytes_verified = self.progress.bytes_verified + len as u64;
        self.progress.bytes_total = self.progress.bytes_total + len as u64;
        self.pass_bytes = Ghost(self.pass_bytes@ + data@);
        proof {
            assert(self.pass_bytes@ =~= self.content().subrange(0, self.offset as int));
            if self.offset < self.device_size {
                assert(len == BUF);
                assert(old_w.block * BUF + BUF == (old_w.block + 1) * BUF) by (nonlinear_arith);
                if old_w.current().kind == PassKind::Prng || old_w.current().kind == PassKind::VerifyPrng {
                    let k = self.prng.state().kind;
                    let r = block_requests(old_w.block as nat);
                    assert(old_w.buffer@.subrange(0, len as int) =~= old_w.buffer_view().subrange(0, len as int));
                    assert(data@ == prng_output(k, self.seed@, r, BUF as nat));
                    lemma_stream_step(k, self.seed@, old_w.pass_bytes@, r, old_w.offset as nat);
                    assert(r.push(BUF as nat) =~= block_requests(self.block as nat));
                }
            }
        }
        let count = if self.in_final {
            self.final_list.len()
        } else {
            self.round_list.len()
        };
        let elapsed = if now > self.start_time {
            now - self.start_time
        } else {
            0
        };
        self.progress = advance_progress(
            self.progress,
            self.offset,
            self.device_size,
            self.index as u64,
            count as u64,
            self.expected_total,
            elapsed,
        );
        if cancel {
            self.cancelled = true;
            self.stage = Stage::CancelSync;
            self.progress.sync_status = true;
            return;
        }
        if self.offset == self.device_size {
            assert(self.content().subrange(0, self.offset as int) =~= self.content());
            assert((self.device_size as int) * 100 / (self.device_size as int) == 100) by (nonlinear_arith)
                requires
                    self.device_size > 0,
            ;
            self.finish_pass();
        } else {
            self.refill();
        }
    }
}

/// The result code of a wipe: negative after a failure, positive after a
/// cancellation, and 0 otherwise.
pub open spec fn result_spec(failure: Option<WipeFailure>, cancelled: bool) -> int {
    if failure is Some {
        -1
    } else if cancelled {
        1
    } else {
        0
    }
}

impl Wiper {
    /// The progress a reader sees.
    pub fn progress(&self) -> (r: Progress)
        ensures
            r == self.progress_of(),
    {
        self.progress
    }

    /// Where the engine stands within a pass.
    pub fn stage(&self) -> (r: Stage)
        ensures
            r == self.stage_of(),
    {
        self.stage
    }

    /// Why the wipe failed, if it did.
    pub fn failure(&self) -> (r: Option<WipeFailure>)
        ensures
            r == self.failure_of(),
    {
        self.failure
    }

    /// Whether the wipe was cancelled.
    pub fn cancelled(&self) -> (r: bool)
        ensures
            r == self.cancelled_of(),
    {
        self.cancelled
    }

    /// The seed the last generator write pass drew.
    pub fn seed(&self) -> (r: &Vec<u8>)
        ensures
            r@ == self.seed_of(),
    {
        &self.seed
    }

    /// The result code: -1 after a failure, 1 after a cancellation, 0 otherwise.
    pub fn result(&self) -> (r: i32)
        ensures
            r == result_spec(self.failure_of(), self.cancelled_of()),
    {
        if self.failure.is_some() {
            -1
        } else if self.cancelled {
            1
        } else {
            0
        }
    }

    /// 1 while the wipe runs, 0 once it is over.
    pub fn wipe_status(&self) -> (r: i32)
        ensures
            r == if self.stage_of() == Stage::Done {
                0int
            } else {
                1int
            },
    {
        if self.stage == Stage::Done {
            0
        } else {
            1
        }
    }
}

/// Counting the write passes of a schedule with verify passes inserted finds
/// the write passes it was made from.
pub proof fn lemma_writes_of_schedule(ws: Seq<PassSpec>, verify: bool)
    requires
        forall|i: int| 0 <= i < ws.len() ==> is_write(#[trigger] ws[i]),
    ensures
        writes_in(with_verify(ws, verify), with_verify(ws, verify).len() as int) == ws.len(),
    decreases ws.len(),
{
    if ws.len() > 0 {
        let w = ws.drop_last();
        assert forall|i: int| 0 <= i < w.len() implies is_write(#[trigger] w[i]) by {
            assert(w[i] == ws[i]);
        }
        lemma_writes_of_schedule(w, verify);
        lemma_with_verify(w, verify);
        lemma_with_verify(ws, verify);
        let a = with_verify(w, verify);
        let v = with_verify(ws, verify);
        let n = a.len() as int;
        assert forall|i: int| 0 <= i < n implies v[i] == a[i] by {}
        lemma_writes_in_prefix(v, a, n);
        assert(is_write(ws.last()));
        assert(v[n] == ws.last());
        assert(writes_in(v, n + 1) == writes_in(v, n) + 1);
        if verify {
            assert(v[n + 1] == verify_of(ws.last()));
            assert(!is_write(v[n + 1]));
            assert(writes_in(v, n + 2) == writes_in(v, n + 1));
        }
    }
}

/// Counting write passes in a prefix of a sequence depends on the prefix alone.
pub proof fn lemma_writes_in_prefix(v: Seq<PassSpec>, a: Seq<PassSpec>, n: int)
    requires
        0 <= n <= a.len(),
        n <= v.len(),
        forall|i: int| 0 <= i < n ==> v[i] == a[i],
    ensures
        writes_in(v, n) == writes_in(a, n),
    decreases n,
{
    if n > 0 {
        lemma_writes_in_prefix(v, a, n - 1);
    }
}

/// A wipe that ran to its end without failure or cancellation wrote every
/// byte of the device once for each write pass of each round, and once more
/// for the blanking pass that ends an OPS-II wipe.
pub proof fn lemma_bytes_written_on_success(w: &Wiper)
    requires
        w.well_formed(),
        w.stage_of() == Stage::Done,
        w.failure_of() is None,
        !w.cancelled_of(),
    ensures
        w.progress_of().bytes_written == w.size() * w.rounds_of() * round_writes(w.method_of()).len() + if w.method_of()
            == WipeMethod::Ops2 {
            w.size()
        } else {
            0
        },
        w.progress_of().bytes_verified == if w.verify_of_wipe() {
            w.progress_of().bytes_written as int
        } else {
            0int
        },
{
    lemma_done_ran_all(w);
    let m = w.method_of();
    lemma_round_views(m, w.verify_of_wipe());
    lemma_all_writes(m);
    lemma_writes_of_schedule(round_writes(m), w.verify_of_wipe());
    lemma_writes_of_schedule(final_writes(m), w.verify_of_wipe());
    let d = w.size() as int;
    let r = w.rounds_of() as int;
    let p = round_writes(m).len() as int;
    let f = final_writes(m).len() as int;
    assert(w.writes_done() == r * p + f) by {
        if w.final_views().len() == 0 {
            assert(f == 0);
            assert((r - 1) * p + p == r * p) by (nonlinear_arith);
        }
    }
    assert(d * (r * p + f) == d * r * p + d * f) by (nonlinear_arith);
    lemma_with_verify(round_writes(m), w.verify_of_wipe());
    lemma_with_verify(final_writes(m), w.verify_of_wipe());
    let t = w.total_passes() as int;
    if w.verify_of_wipe() {
        assert(t == r * (2 * p) + 2 * f);
        assert(d * t == 2 * (d * (r * p + f))) by (nonlinear_arith)
            requires
                t == r * (2 * p) + 2 * f,
        ;
    } else {
        assert(t == r * p + f);
    }
}

/// Every pass a method's rounds and final part are built from writes.
pub proof fn lemma_all_writes(m: WipeMethod)
    ensures
        forall|i: int| 0 <= i < round_writes(m).len() ==> is_write(#[trigger] round_writes(m)[i]),
        forall|i: int| 0 <= i < final_writes(m).len() ==> is_write(#[trigger] final_writes(m)[i]),
{
    assert forall|i: int| 0 <= i < round_writes(m).len() implies is_write(#[trigger] round_writes(m)[i]) by {
        if m == WipeMethod::Gutmann {
            if 4 <= i < 31 {
                assert(round_writes(m)[i] == pattern_pass(gutmann_patterns()[i - 4]));
            }
        }
    }
}

/// When a write pass is complete, the bytes it handed out are, in order,
/// its pattern repeated over the whole device, or for a generator pass the
/// stream of the seed it drew.
pub proof fn lemma_write_pass_content(w: &Wiper)
    requires
        w.well_formed(),
        w.stage_of() == Stage::Sync,
    ensures
        w.offset_of() == w.size(),
        w.current().kind == PassKind::Pattern ==> w.pass_bytes() == tile(w.current().pattern, w.size()),
        w.current().kind == PassKind::Prng ==> w.pass_bytes() == crate::stream::random_content(
            w.prng_state().kind,
            w.seed_of(),
            w.size(),
        ),
{
    assert(w.content().subrange(0, w.offset_of() as int) =~= w.content());
}

/// A verify pass expects back exactly what its write pass wrote, given the
/// same seed.
pub proof fn lemma_verify_expects_written(p: PassSpec, k: PrngKind, seed: Seq<u8>, n: nat)
    requires
        is_write(p),
    ensures
        pass_content(verify_of(p), k, seed, n) == pass_content(p, k, seed, n),
{
}

/// In a schedule with verify passes, each verify pass directly follows the
/// write pass it checks.
pub proof fn lemma_verify_follows_write(ws: Seq<PassSpec>, i: int)
    requires
        0 <= i < ws.len(),
    ensures
        with_verify(ws, true).len() == 2 * ws.len(),
        with_verify(ws, true)[2 * i] == ws[i],
        with_verify(ws, true)[2 * i + 1] == verify_of(ws[i]),
    decreases ws.len(),
{
    lemma_with_verify(ws, true);
    let w = ws.drop_last();
    lemma_with_verify(w, true);
    if i < ws.len() - 1 {
        lemma_verify_follows_write(w, i);
        assert(w[i] == ws[i]);
    }
}

/// Progress percentages stay between 0 and 100.
pub proof fn lemma_percent_bounds(w: &Wiper)
    requires
        w.well_formed(),
    ensures
        w.progress_of().round_percent <= 100,
        w.progress_of().pass_percent <= 100,
{
}

/// At any moment, and so when a wipe is cancelled, the bytes written are at
/// most a whole device for each completed pass and the current one; and a
/// cancelled wipe without failure has a positive result.
pub proof fn lemma_cancel_bound(w: &Wiper)
    requires
        w.well_formed(),
    ensures
        w.progress_of().bytes_written <= w.size() * (w.passes_done() + 1),
        w.cancelled_of() && w.failure_of() is None ==> result_spec(w.failure_of(), w.cancelled_of()) > 0,
{
    w.lemma_writes_le_passes();
    let d = w.size() as int;
    let wd = w.writes_done() as int;
    let pd = w.passes_done() as int;
    assert(d * wd + d <= d * (pd + 1)) by (nonlinear_arith)
        requires
            wd <= pd,
            d >= 0,
    ;
}

/// In a schedule built from write passes, a pass that is not a write is the
/// verify pass of the write pass just before it.
pub proof fn lemma_verify_pairs(ws: Seq<PassSpec>, verify: bool)
    requires
        forall|i: int| 0 <= i < ws.len() ==> is_write(#[trigger] ws[i]),
    ensures
        forall|j: int|
            0 <= j < with_verify(ws, verify).len() && !is_write(#[trigger] with_verify(ws, verify)[j]) ==> {
                &&& j >= 1
                &&& is_write(with_verify(ws, verify)[j - 1])
                &&& with_verify(ws, verify)[j] == verify_of(with_verify(ws, verify)[j - 1])
            },
{
    let v = with_verify(ws, verify);
    lemma_with_verify(ws, verify);
    assert forall|j: int| 0 <= j < v.len() && !is_write(#[trigger] v[j]) implies {
        &&& j >= 1
        &&& is_write(v[j - 1])
        &&& v[j] == verify_of(v[j - 1])
    } by {
        if verify {
            let i = j / 2;
            lemma_verify_follows_write(ws, i);
            if j == 2 * i {
                assert(is_write(ws[i]));
            } else {
                assert(j == 2 * i + 1);
            }
        } else {
            lemma_without_verify(ws, j);
        }
    }
}

/// Without verify passes a schedule is its write passes.
pub proof fn lemma_without_verify(ws: Seq<PassSpec>, j: int)
    requires
        0 <= j < ws.len(),
    ensures
        with_verify(ws, false).len() == ws.len(),
        with_verify(ws, false)[j] == ws[j],
    decreases ws.len(),
{
    lemma_with_verify(ws, false);
    let w = ws.drop_last();
    lemma_with_verify(w, false);
    if j < ws.len() - 1 {
        lemma_without_verify(w, j);
    }
}

/// While a verify pass runs, the bytes it expects back are exactly those the
/// last write pass wrote: reading the device back succeeds if and only if
/// nothing changed it in between.
pub proof fn lemma_verify_checks_last_write(w: &Wiper)
    requires
        w.well_formed(),
        w.stage_of() != Stage::Done,
        !is_write(w.current()),
    ensures
        w.content() == w.last_written(),
{
}

/// In a schedule part of method `m`, the pass at `i` is a write pass, or the
/// verify pass of the write pass at `i - 1`; a verify pass is never first.
pub proof fn lemma_next_expects(
    list: Seq<PassSpec>,
    i: int,
    m: WipeMethod,
    verify: bool,
    in_final: bool,
    prev: int,
    prev_final: bool,
)
    requires
        list == if in_final {
            with_verify(final_writes(m), verify)
        } else {
            with_verify(round_writes(m), verify)
        },
        0 <= i < list.len(),
        i == 0 || (i == prev + 1 && in_final == prev_final),
    ensures
        !is_write(list[i]) ==> i >= 1 && is_write(list[i - 1]) && list[i] == verify_of(list[i - 1]),
{
    lemma_all_writes(m);
    lemma_verify_pairs(round_writes(m), verify);
    lemma_verify_pairs(final_writes(m), verify);
}

/// Counting write passes over a longer prefix never counts fewer.
pub proof fn lemma_writes_in_mono(ps: Seq<PassSpec>, a: int, b: int)
    requires
        0 <= a <= b <= ps.len(),
    ensures
        writes_in(ps, a) <= writes_in(ps, b),
    decreases b - a,
{
    if a < b {
        lemma_writes_in_mono(ps, a, b - 1);
    }
}

/// At any moment the bytes written are at most the device size times the
/// write passes of the whole schedule.
pub proof fn lemma_bytes_written_bound(w: &Wiper)
    requires
        w.well_formed(),
    ensures
        w.progress_of().bytes_written <= w.size() * (w.rounds_of() * round_writes(w.method_of()).len()
            + final_writes(w.method_of()).len()),
{
    let m = w.method_of();
    lemma_round_views(m, w.verify_of_wipe());
    lemma_all_writes(m);
    lemma_writes_of_schedule(round_writes(m), w.verify_of_wipe());
    lemma_writes_of_schedule(final_writes(m), w.verify_of_wipe());
    let d = w.size() as int;
    let r = w.round as int;
    let rs = w.rounds as int;
    let p = round_writes(m).len() as int;
    let f = final_writes(m).len() as int;
    let l = w.list();
    let i = w.index as int;
    // the write passes done, counting the current one when it writes
    let k: int = if w.writing && i < l.len() {
        lemma_writes_in_mono(l, i + 1, l.len() as int);
        assert(writes_in(l, i + 1) == writes_in(l, i) + 1);
        writes_in(l, i + 1) as int
    } else {
        lemma_writes_in_mono(l, i, l.len() as int);
        writes_in(l, i) as int
    };
    let total_w = if w.in_final { f } else { p };
    assert(k <= total_w);
    let done: int = if w.in_final { rs * p + k } else { (r - 1) * p + k };
    assert(done <= rs * p + f) by {
        if !w.in_final {
            assert((r - 1) * p + p <= rs * p) by (nonlinear_arith)
                requires
                    1 <= r <= rs,
                    p >= 0,
            ;
        }
    }
    assert(w.progress_of().bytes_written <= d * done) by {
        if w.writing && i < l.len() {
            assert(d * done == d * w.writes_done() + d) by (nonlinear_arith)
                requires
                    done == w.writes_done() + 1,
            ;
        } else {
            assert(w.offset == 0 || !w.writing);
        }
    }
    assert(d * done <= d * (rs * p + f)) by (nonlinear_arith)
        requires
            done <= rs * p + f,
            d >= 0,
    ;
}

/// While the wipe runs, the current pass is the pass of the schedule that
/// follows those completed, and the schedule is as long as the wipe.
pub proof fn lemma_current_pass(w: &Wiper)
    requires
        w.well_formed(),
        w.stage_of() != Stage::Done,
    ensures
        w.total_passes() == schedule(w.method_of(), w.verify_of_wipe(), w.rounds_of()).len(),
        w.passes_done() < w.total_passes(),
        w.current() == schedule(w.method_of(), w.verify_of_wipe(), w.rounds_of())[w.passes_done() as int],
{
    let m = w.method_of();
    let v = w.verify_of_wipe();
    let sch = schedule(m, v, w.rounds_of());
    let r = with_verify(round_writes(m), v);
    let l = r.len() as int;
    let rs = w.rounds as int;
    let rd = w.round as int;
    let i = w.index as int;
    let pd = w.passes_done() as int;
    w.lemma_room();
    assert(rs * r.len() == rs * l);
    if w.in_final {
        assert(sch[pd] == with_verify(final_writes(m), v)[i]);
    } else {
        assert(pd == (rd - 1) * l + i);
        assert(pd < rs * l) by (nonlinear_arith)
            requires
                pd == (rd - 1) * l + i,
                0 <= i < l,
                1 <= rd <= rs,
        {
            assert((rd - 1) * l + l == rd * l);
            assert(rd * l <= rs * l);
        }
        vstd::arithmetic::div_mod::lemma_fundamental_div_mod_converse(pd, l, rd - 1, i);
        assert(sch[pd] == r[pd % l]);
    }
}

/// A wipe that ended without failure or cancellation ran every pass of its
/// schedule.
pub proof fn lemma_done_ran_all(w: &Wiper)
    requires
        w.well_formed(),
        w.stage_of() == Stage::Done,
        w.failure_of() is None,
        !w.cancelled_of(),
    ensures
        w.passes_done() == w.total_passes(),
        w.total_passes() == schedule(w.method_of(), w.verify_of_wipe(), w.rounds_of()).len(),
{
    let l = w.round_views().len() as int;
    let r = w.round as int;
    assert((r - 1) * l + l == r * l) by (nonlinear_arith);
}

/// What the progress shows follows the engine's state: the sync flag is up
/// exactly while a sync is asked for; the round and pass counts are those of
/// the method; the percentages stay within 0 to 100; the bytes moved are the
/// bytes written and verified; a running pass shows its kind; and the time
/// estimate counts the bytes of every write pass, twice when verifying.
pub proof fn lemma_progress_facts(w: &Wiper)
    requires
        w.well_formed(),
    ensures
        w.progress_of().sync_status == (w.stage_of() == Stage::Sync || w.stage_of() == Stage::CancelSync),
        w.progress_of().round_count == w.rounds_of(),
        w.progress_of().pass_count == round_writes(w.method_of()).len(),
        w.progress_of().round_percent <= 100,
        w.progress_of().pass_percent <= 100,
        w.progress_of().bytes_total == w.progress_of().bytes_written + w.progress_of().bytes_verified,
        w.stage_of() == Stage::Stream || w.stage_of() == Stage::Sync || w.stage_of() == Stage::CancelSync
            ==> w.progress_of().pass_type == pass_type_of(w.current()),
        w.expected_of() == expected_bytes(w.size(), w.method_of(), w.rounds_of(), w.verify_of_wipe()),
{
}

/// The byte counters follow the position in the schedule: every completed
/// pass moved the whole device, and the current one has moved `offset` bytes;
/// the bytes written count the write passes alone.
pub proof fn lemma_counters(w: &Wiper)
    requires
        w.well_formed(),
    ensures
        w.offset_of() <= w.size(),
        w.progress_of().bytes_total == w.size() * w.passes_done() + w.offset_of(),
        w.progress_of().bytes_written == w.size() * w.writes_done() + if w.index_of() < w.list().len() && is_write(
            w.current(),
        ) {
            w.offset_of()
        } else {
            0
        },
        w.writes_done() <= w.passes_done(),
        w.passes_done() <= w.total_passes(),
{
    w.lemma_writes_le_passes();
    if w.index < w.list().len() {
        w.lemma_room();
    } else {
        let l = w.round_views().len() as int;
        let r = w.round as int;
        let rs = w.rounds as int;
        if !w.in_final {
            assert((r - 1) * l + l <= rs * l) by (nonlinear_arith)
                requires
                    1 <= r <= rs,
                    l >= 0,
            ;
        }
    }
}

} // verus!
