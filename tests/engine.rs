use nwipe::context::PassType;
use nwipe::method::{round_passes, PassKind, WipeMethod};
use nwipe::prng::{NwipePrng, Prng, PrngKind};
use nwipe::stream::BUF;
use nwipe::wipe::{Action, ConfigError, Stage, WipeFailure, Wiper};

const MIB: u64 = 1024 * 1024;

/// A device held in memory; an empty one keeps nothing and reads back zeros.
struct Device {
    data: Vec<u8>,
    keep: bool,
    pos: usize,
}

impl Device {
    fn new(size: u64) -> Device {
        Device { data: vec![0xA5u8; size as usize], keep: true, pos: 0 }
    }

    fn discard() -> Device {
        Device { data: Vec::new(), keep: false, pos: 0 }
    }
}

/// What a run of the engine showed.
#[derive(Default)]
struct Run {
    writes: Vec<usize>,
    write_calls_per_pass: Vec<usize>,
    pass_types: Vec<PassType>,
    syncs: usize,
    max_round_percent: u64,
    round_percent_hit_100: usize,
}

/// Drives `w` to its end over `dev`. `cancel_at` cancels after that many
/// writes; `corrupt` flips the byte at that offset before the first read.
fn drive(w: &mut Wiper, dev: &mut Device, cancel_at: Option<usize>, corrupt: Option<usize>) -> Run {
    let mut run = Run::default();
    let mut corrupted = false;
    let mut last = w.progress();
    let mut now: u64 = 1000;
    loop {
        now += 1;
        match w.next_action() {
            Action::Seek => {
                dev.pos = 0;
                w.seek_done(true, now);
                let p = w.progress();
                if w.failure().is_none() && p.pass_type != PassType::Idle {
                    run.pass_types.push(p.pass_type);
                    run.write_calls_per_pass.push(0);
                }
            }
            Action::Write { start, len } => {
                if dev.keep {
                    let pos = dev.pos;
                    dev.data[pos..pos + len].copy_from_slice(&w.buffer()[start..start + len]);
                }
                dev.pos += len;
                run.writes.push(len);
                if let Some(c) = run.write_calls_per_pass.last_mut() {
                    *c += 1;
                }
                let cancel = cancel_at == Some(run.writes.len());
                w.write_done(true, cancel, now);
            }
            Action::Read { len } => {
                if let Some(k) = corrupt {
                    if !corrupted {
                        dev.data[k] ^= 0xFF;
                        corrupted = true;
                    }
                }
                let pos = dev.pos;
                let data = if dev.keep { dev.data[pos..pos + len].to_vec() } else { vec![0u8; len] };
                dev.pos += len;
                w.read_done(&data, false, now);
            }
            Action::Sync => {
                run.syncs += 1;
                w.sync_done(true);
            }
            Action::Done => break,
        }
        let p = w.progress();
        assert!(p.bytes_written >= last.bytes_written);
        assert!(p.bytes_verified >= last.bytes_verified);
        assert!(p.bytes_total >= last.bytes_total);
        assert!(p.round_percent <= 100 && p.pass_percent <= 100);
        if p.round_percent > run.max_round_percent {
            run.max_round_percent = p.round_percent;
        }
        if p.round_percent == 100 && last.round_percent != 100 {
            run.round_percent_hit_100 += 1;
        }
        last = p;
    }
    run
}

fn wiper(method: &str, prng: &str, rounds: u32, verify: bool, size: u64) -> Wiper {
    match Wiper::new(method, prng, rounds, verify, size, 1000) {
        Ok(w) => w,
        Err(e) => panic!("setup failed: {:?}", e),
    }
}

/// The stream a generator pass writes over `n` bytes from `seed`: one
/// request of `n` bytes to a generator just seeded with it.
fn regenerate(kind: PrngKind, seed: &Vec<u8>, n: usize) -> Vec<u8> {
    let mut g = Prng::from_seed(kind, seed);
    let mut out = vec![0u8; n];
    g.fill_bytes(&mut out);
    out
}

#[test]
fn zero_wipe_8_mib() {
    let size = 8 * MIB;
    let mut w = wiper("zero", "isaac", 1, false, size);
    let mut dev = Device::new(size);
    let run = drive(&mut w, &mut dev, None, None);
    assert_eq!(w.progress().bytes_written, 8_388_608);
    assert_eq!(run.writes, vec![4 * MIB as usize, 4 * MIB as usize]);
    assert!(dev.data.iter().all(|b| *b == 0));
    assert_eq!(w.wipe_status(), 0);
    assert_eq!(w.result(), 0);
}

#[test]
fn dod_with_verify_10_mib() {
    let size = 10_485_760u64;
    let mut w = wiper("dod", "isaac", 1, true, size);
    let mut dev = Device::new(size);
    let run = drive(&mut w, &mut dev, None, None);
    assert_eq!(w.result(), 0);
    assert_eq!(
        run.pass_types,
        vec![PassType::Write, PassType::Verify, PassType::Write, PassType::Verify, PassType::Write, PassType::Verify]
    );
    assert_eq!(w.progress().bytes_written, 3 * size);
    assert_eq!(w.progress().bytes_verified, 3 * size);
    let expected = regenerate(PrngKind::Isaac, w.seed(), size as usize);
    assert!(dev.data == expected);
}

#[test]
fn ops2_two_rounds_4_mib() {
    let size = 4 * MIB;
    let mut w = wiper("ops2", "isaac", 2, false, size);
    let mut dev = Device::new(size);
    let run = drive(&mut w, &mut dev, None, None);
    assert_eq!(w.result(), 0);
    assert_eq!(
        run.pass_types,
        vec![
            PassType::Write,
            PassType::Write,
            PassType::Write,
            PassType::Write,
            PassType::Write,
            PassType::Write,
            PassType::FinalBlank
        ]
    );
    assert!(dev.data.iter().all(|b| *b == 0));
    assert_eq!(w.progress().bytes_written, 7 * size);
}

#[test]
fn cancellation_mid_pass() {
    let size = 1024 * MIB;
    let mut w = wiper("zero", "isaac", 1, false, size);
    let mut dev = Device::discard();
    let run = drive(&mut w, &mut dev, Some(100), None);
    assert!(w.result() > 0);
    assert!(w.cancelled());
    assert!(w.progress().bytes_written >= 100 * 4 * MIB);
    assert!(w.progress().bytes_written < size);
    assert_eq!(w.wipe_status(), 0);
    assert_eq!(run.syncs, 1);
    assert_eq!(run.writes.len(), 100);
}

#[test]
fn gutmann_pass_count_and_order() {
    let size = 64 * 1024u64;
    let mut w = wiper("gutmann", "mt19937", 1, false, size);
    let mut dev = Device::new(size);
    let run = drive(&mut w, &mut dev, None, None);
    assert_eq!(w.result(), 0);
    assert_eq!(run.pass_types.len(), 35);
    assert!(run.pass_types.iter().all(|t| *t == PassType::Write));
    assert_eq!(w.progress().bytes_written, 35 * size);
    let passes = round_passes(WipeMethod::Gutmann, false);
    assert_eq!(passes.len(), 35);
    let expected: [[u8; 3]; 27] = [
        [0x55, 0x55, 0x55], [0xAA, 0xAA, 0xAA], [0x92, 0x49, 0x24], [0x49, 0x24, 0x92],
        [0x24, 0x92, 0x49], [0x00, 0x00, 0x00], [0x11, 0x11, 0x11], [0x22, 0x22, 0x22],
        [0x33, 0x33, 0x33], [0x44, 0x44, 0x44], [0x55, 0x55, 0x55], [0x66, 0x66, 0x66],
        [0x77, 0x77, 0x77], [0x88, 0x88, 0x88], [0x99, 0x99, 0x99], [0xAA, 0xAA, 0xAA],
        [0xBB, 0xBB, 0xBB], [0xCC, 0xCC, 0xCC], [0xDD, 0xDD, 0xDD], [0xEE, 0xEE, 0xEE],
        [0xFF, 0xFF, 0xFF], [0x92, 0x49, 0x24], [0x49, 0x24, 0x92], [0x24, 0x92, 0x49],
        [0x6D, 0xB6, 0xDB], [0xB6, 0xDB, 0x6D], [0xDB, 0x6D, 0xB6],
    ];
    for i in 0..4 {
        assert_eq!(passes[i].kind, PassKind::Prng);
        assert_eq!(passes[31 + i].kind, PassKind::Prng);
    }
    for (i, p) in expected.iter().enumerate() {
        assert_eq!(passes[4 + i].kind, PassKind::Pattern);
        assert_eq!(passes[4 + i].pattern, p.to_vec());
    }
}

#[test]
fn random_with_verify_isaac_16_mib() {
    let size = 16 * MIB;
    let mut w = wiper("random", "isaac", 1, true, size);
    let mut dev = Device::new(size);
    let run = drive(&mut w, &mut dev, None, None);
    assert_eq!(w.result(), 0);
    assert_eq!(run.pass_types, vec![PassType::Write, PassType::Verify]);
    assert_eq!(w.seed().len(), 32);
    assert_eq!(w.progress().bytes_verified, 16 * 1024 * 1024);
    let expected = regenerate(PrngKind::Isaac, w.seed(), size as usize);
    assert!(dev.data == expected);
}

#[test]
fn device_of_one_buffer_takes_one_write() {
    let size = BUF as u64;
    let mut w = wiper("dod", "twister", 1, false, size);
    let mut dev = Device::new(size);
    let run = drive(&mut w, &mut dev, None, None);
    assert_eq!(w.result(), 0);
    assert_eq!(run.write_calls_per_pass, vec![1, 1, 1]);
}

#[test]
fn last_write_is_truncated() {
    let size = BUF as u64 + 1000;
    let mut w = wiper("zero", "isaac", 1, false, size);
    let mut dev = Device::new(size);
    let run = drive(&mut w, &mut dev, None, None);
    assert_eq!(run.writes, vec![BUF, 1000]);
    assert_eq!(run.writes.iter().sum::<usize>() as u64, size);
    assert_eq!(w.progress().bytes_written, size);
}

#[test]
fn empty_device_passes_complete_at_once() {
    let mut w = wiper("dod", "isaac", 1, true, 0);
    let mut dev = Device::new(0);
    let run = drive(&mut w, &mut dev, None, None);
    assert_eq!(w.result(), 0);
    assert!(run.writes.is_empty());
    assert_eq!(run.pass_types.len(), 6);
    assert_eq!(w.progress().pass_percent, 100);
    assert_eq!(w.progress().round_percent, 100);
}

#[test]
fn device_of_one_sector_takes_one_write() {
    let size = 512u64;
    let mut w = wiper("zero", "isaac", 1, false, size);
    let mut dev = Device::new(size);
    let run = drive(&mut w, &mut dev, None, None);
    assert_eq!(run.writes, vec![512]);
    assert!(dev.data.iter().all(|b| *b == 0));
}

#[test]
fn bytes_written_match_schedule_for_every_method() {
    let size = 3000u64;
    let cases: [(&str, u32, u64, u64); 5] =
        [("zero", 2, 1, 0), ("random", 3, 1, 0), ("dod", 2, 3, 0), ("ops2", 3, 3, 1), ("gutmann", 1, 35, 0)];
    for (name, rounds, per_round, extra) in cases.iter() {
        let mut w = wiper(name, "twister", *rounds, false, size);
        let mut dev = Device::new(size);
        drive(&mut w, &mut dev, None, None);
        assert_eq!(w.result(), 0);
        assert_eq!(w.progress().bytes_written, size * (*rounds as u64) * per_round + size * extra);
    }
}

#[test]
fn pattern_continues_across_buffers() {
    let size = BUF as u64 + 64;
    let mut w = wiper("gutmann", "isaac", 1, false, size);
    let mut dev = Device::new(size);
    let mut seen = Vec::new();
    // run passes one at a time and check the device after the first pattern pass
    let mut writes = 0usize;
    loop {
        match w.next_action() {
            Action::Seek => {
                dev.pos = 0;
                w.seek_done(true, 1);
            }
            Action::Write { start, len } => {
                let pos = dev.pos;
                dev.data[pos..pos + len].copy_from_slice(&w.buffer()[start..start + len]);
                dev.pos += len;
                writes += 1;
                w.write_done(true, false, 1);
            }
            Action::Sync => {
                if writes == 5 * 2 {
                    seen = dev.data.clone();
                }
                w.sync_done(true);
            }
            Action::Read { .. } => panic!("no verify pass was asked for"),
            Action::Done => break,
        }
    }
    // the fifth pass writes 55 55 55; the seventh 92 49 24 continues across the buffer edge
    assert!(seen.iter().all(|b| *b == 0x55));
    let mut w = wiper("gutmann", "isaac", 1, false, size);
    let mut dev = Device::new(size);
    let mut passes = 0usize;
    loop {
        match w.next_action() {
            Action::Seek => {
                dev.pos = 0;
                w.seek_done(true, 1);
            }
            Action::Write { start, len } => {
                let pos = dev.pos;
                dev.data[pos..pos + len].copy_from_slice(&w.buffer()[start..start + len]);
                dev.pos += len;
                w.write_done(true, false, 1);
            }
            Action::Sync => {
                passes += 1;
                if passes == 7 {
                    let p = [0x92u8, 0x49, 0x24];
                    assert!(dev.data.iter().enumerate().all(|(i, b)| *b == p[i % 3]));
                }
                w.sync_done(true);
            }
            Action::Read { .. } => panic!("no verify pass was asked for"),
            Action::Done => break,
        }
    }
    assert_eq!(passes, 35);
}

#[test]
fn verify_detects_a_changed_byte() {
    let size = 2 * MIB;
    let mut w = wiper("zero", "isaac", 1, true, size);
    let mut dev = Device::new(size);
    drive(&mut w, &mut dev, None, Some(123_457));
    assert_eq!(w.result(), -1);
    assert_eq!(w.failure(), Some(WipeFailure::Mismatch { offset: 123_457, expected: 0x00, found: 0xFF }));
}

#[test]
fn verify_of_random_pass_detects_a_changed_byte() {
    let size = MIB;
    let mut w = wiper("random", "isaac", 1, true, size);
    let mut dev = Device::new(size);
    drive(&mut w, &mut dev, None, Some(77));
    assert_eq!(w.result(), -1);
    match w.failure() {
        Some(WipeFailure::Mismatch { offset, expected, found }) => {
            assert_eq!(offset, 77);
            assert_eq!(expected ^ 0xFF, found);
        }
        other => panic!("expected a mismatch, got {:?}", other),
    }
}

#[test]
fn verify_succeeds_when_nothing_changed() {
    let size = MIB + 5;
    let mut w = wiper("ops2", "random", 1, true, size);
    let mut dev = Device::new(size);
    drive(&mut w, &mut dev, None, None);
    assert_eq!(w.result(), 0);
    assert_eq!(w.failure(), None);
    assert_eq!(w.progress().bytes_verified, 4 * size);
}

#[test]
fn round_percent_reaches_100_once_per_round() {
    let size = 10_000u64;
    let mut w = wiper("dod", "isaac", 2, true, size);
    let mut dev = Device::new(size);
    let run = drive(&mut w, &mut dev, None, None);
    assert_eq!(run.max_round_percent, 100);
    assert!(run.round_percent_hit_100 >= 2);
}

#[test]
fn cancellation_bounds_bytes_written() {
    let size = 3 * BUF as u64;
    let mut w = wiper("dod", "isaac", 1, false, size);
    let mut dev = Device::discard();
    drive(&mut w, &mut dev, Some(5), None);
    // two writes into the second pass: one pass complete
    assert_eq!(w.progress().bytes_written, 5 * BUF as u64);
    assert!(w.progress().bytes_written <= size * 2);
    assert_eq!(w.result(), 1);
}

#[test]
fn failed_write_is_fatal() {
    let mut w = wiper("zero", "isaac", 1, false, 4096);
    assert_eq!(w.next_action(), Action::Seek);
    w.seek_done(true, 1);
    assert_eq!(w.next_action(), Action::Write { start: 0, len: 4096 });
    w.write_done(false, false, 2);
    assert_eq!(w.next_action(), Action::Done);
    assert_eq!(w.failure(), Some(WipeFailure::Io));
    assert_eq!(w.result(), -1);
}

#[test]
fn failed_seek_and_sync_are_fatal() {
    let mut w = wiper("zero", "isaac", 1, false, 4096);
    w.seek_done(false, 1);
    assert_eq!(w.failure(), Some(WipeFailure::Io));
    let mut w = wiper("zero", "isaac", 1, false, 4096);
    w.seek_done(true, 1);
    w.write_done(true, false, 1);
    assert_eq!(w.next_action(), Action::Sync);
    w.sync_done(false);
    assert_eq!(w.failure(), Some(WipeFailure::Io));
    assert_eq!(w.stage(), Stage::Done);
}

#[test]
fn short_read_is_fatal() {
    let mut w = wiper("zero", "isaac", 1, true, 4096);
    w.seek_done(true, 1);
    w.write_done(true, false, 1);
    w.sync_done(true);
    w.seek_done(true, 1);
    assert_eq!(w.next_action(), Action::Read { len: 4096 });
    w.read_done(&vec![0u8; 100], false, 1);
    assert_eq!(w.failure(), Some(WipeFailure::Io));
}

#[test]
fn setup_errors() {
    assert_eq!(Wiper::new("shred", "isaac", 1, false, 10, 0).err(), Some(ConfigError::UnknownMethod));
    assert_eq!(Wiper::new("dod", "isaac", 0, false, 10, 0).err(), Some(ConfigError::InvalidRounds));
    assert_eq!(Wiper::new("dod", "lcg", 1, false, 10, 0).err(), Some(ConfigError::UnknownPrng));
    assert_eq!(Wiper::new("dod", "isaac", 1, true, u64::MAX / 2, 0).err(), Some(ConfigError::TooLarge));
    assert!(Wiper::new("dod", "isaac", 1, true, u64::MAX / 6, 0).is_ok());
}

#[test]
fn throughput_and_eta_follow_progress() {
    let size = 2 * BUF as u64;
    let mut w = wiper("zero", "isaac", 1, false, size);
    w.seek_done(true, 1000);
    w.write_done(true, false, 1002);
    let p = w.progress();
    assert_eq!(p.bytes_total, BUF as u64);
    assert_eq!(p.throughput, BUF as u64 / 2);
    assert_eq!(p.eta, 2);
    assert_eq!(p.pass_percent, 50);
    assert_eq!(p.round_percent, 50);
}

#[test]
fn random_pass_is_one_contiguous_stream() {
    for (prng, kind) in [("isaac", PrngKind::Isaac), ("twister", PrngKind::Twister), ("random", PrngKind::System)] {
        let size = BUF as u64 + 13;
        let mut w = wiper("random", prng, 1, true, size);
        let mut dev = Device::new(size);
        let run = drive(&mut w, &mut dev, None, None);
        assert_eq!(w.result(), 0);
        assert_eq!(run.writes, vec![BUF, 13]);
        assert!(dev.data == regenerate(kind, w.seed(), size as usize));
    }
}
