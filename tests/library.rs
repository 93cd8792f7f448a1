use nwipe::context::{DeviceIdentity, NwipeContext, PrngSeed, Progress, SelectStatus};
use nwipe::logging::{
    convert_seconds_to_hours_minutes_seconds, nwipe_perror, perror_line, wipe_outcome, LogLevel, WipeOutcome,
};
use nwipe::method::{final_passes, method_from_name, round_passes, PassKind, WipeMethod};
use nwipe::options::{check_options, parse_options, CommandLine, NwipeOptions, OptionsError};
use nwipe::prng::{
    init_prng, prng_kind_from_name, seed_from_entropy, zeroed, IsaacPrng, Mt19937Prng, NwipePrng, Prng,
    PrngError, PrngKind, StdPrng,
};
use nwipe::progress::{pass_percent, round_percent, update_eta_throughput};
use nwipe::stream::{chunk_len, fill_pattern, first_mismatch, BUF};
use nwipe::supervisor::{aggregate_results, exit_code, select_devices, selected_indices};
use nwipe::version::{copyright_string, version_info, version_string};

fn seed_of(kind: PrngKind, b: u8) -> Vec<u8> {
    let n = match kind {
        PrngKind::Twister => 8,
        _ => 32,
    };
    (0..n).map(|i| b.wrapping_add(i as u8)).collect()
}

#[test]
fn reseed_replays_the_same_bytes() {
    for kind in [PrngKind::Isaac, PrngKind::Twister, PrngKind::System] {
        let s = seed_of(kind, 7);
        let mut g = Prng::from_seed(kind, &seed_of(kind, 99));
        let mut junk = vec![0u8; 13];
        g.fill_bytes(&mut junk);
        g.reseed(&s);
        let mut a = vec![0u8; 1000];
        g.fill_bytes(&mut a);
        g.reseed(&s);
        let mut b = vec![0u8; 1000];
        g.fill_bytes(&mut b);
        assert_eq!(a, b);
        assert!(a.iter().any(|x| *x != 0));
    }
}

#[test]
fn different_seeds_give_different_streams() {
    for kind in [PrngKind::Isaac, PrngKind::Twister, PrngKind::System] {
        let mut g = Prng::from_seed(kind, &seed_of(kind, 1));
        let mut h = Prng::from_seed(kind, &seed_of(kind, 2));
        let mut a = vec![0u8; 64];
        let mut b = vec![0u8; 64];
        g.fill_bytes(&mut a);
        h.fill_bytes(&mut b);
        assert_ne!(a, b);
        let mut c = vec![0u8; 64];
        g.fill_bytes(&mut c);
        assert_ne!(a, c);
    }
}

#[test]
fn twister_matches_known_first_word() {
    // The reference 64-bit Mersenne Twister seeded with 5489 starts with 14514284786278117030.
    let seed = 5489u64.to_le_bytes().to_vec();
    let mut g = Mt19937Prng::from_seed(&seed);
    let mut out = vec![0u8; 8];
    g.fill_bytes(&mut out);
    assert_eq!(u64::from_le_bytes([out[0], out[1], out[2], out[3], out[4], out[5], out[6], out[7]]), 14514284786278117030);
}

#[test]
fn generators_seed_from_entropy() {
    assert_eq!(seed_from_entropy(PrngKind::Isaac).map(|s| s.len()), Ok(32));
    assert_eq!(seed_from_entropy(PrngKind::Twister).map(|s| s.len()), Ok(8));
    let a = seed_from_entropy(PrngKind::System).unwrap();
    let b = seed_from_entropy(PrngKind::System).unwrap();
    assert_ne!(a, b);
    assert!(IsaacPrng::new().is_ok());
    assert!(Mt19937Prng::new().is_ok());
    assert!(StdPrng::new().is_ok());
    let mut i = IsaacPrng::from_seed(&seed_of(PrngKind::Isaac, 3));
    let mut z = vec![0u8; 32];
    i.fill_bytes(&mut z);
    assert!(z.iter().any(|x| *x != 0));
    let mut s = StdPrng::from_seed(&seed_of(PrngKind::System, 3));
    let mut z = vec![0u8; 32];
    s.fill_bytes(&mut z);
    assert!(z.iter().any(|x| *x != 0));
}

#[test]
fn prng_names() {
    assert_eq!(prng_kind_from_name("isaac"), Some(PrngKind::Isaac));
    assert_eq!(prng_kind_from_name("mt19937"), Some(PrngKind::Twister));
    assert_eq!(prng_kind_from_name("twister"), Some(PrngKind::Twister));
    assert_eq!(prng_kind_from_name("random"), Some(PrngKind::System));
    assert_eq!(prng_kind_from_name("Isaac"), None);
    assert_eq!(init_prng("lcg").err(), Some(PrngError::UnknownPrng));
    assert_eq!(init_prng("twister").map(|p| p.kind()).ok(), Some(PrngKind::Twister));
}

#[test]
fn method_names_and_schedules() {
    assert_eq!(method_from_name("ops2"), Some(WipeMethod::Ops2));
    assert_eq!(method_from_name("dod"), Some(WipeMethod::Dod));
    assert_eq!(method_from_name("gutmann"), Some(WipeMethod::Gutmann));
    assert_eq!(method_from_name("random"), Some(WipeMethod::Random));
    assert_eq!(method_from_name("zero"), Some(WipeMethod::Zero));
    assert_eq!(method_from_name("dban"), None);
    let dod = round_passes(WipeMethod::Dod, true);
    let kinds: Vec<PassKind> = dod.iter().map(|p| p.kind).collect();
    assert_eq!(
        kinds,
        vec![PassKind::Pattern, PassKind::VerifyPattern, PassKind::Pattern, PassKind::VerifyPattern, PassKind::Prng, PassKind::VerifyPrng]
    );
    assert_eq!(dod[0].pattern, vec![0x00]);
    assert_eq!(dod[2].pattern, vec![0xFF]);
    assert_eq!(dod[3].pattern, vec![0xFF]);
    assert_eq!(round_passes(WipeMethod::Zero, false).len(), 1);
    assert_eq!(round_passes(WipeMethod::Random, false)[0].kind, PassKind::Prng);
    let fin = final_passes(WipeMethod::Ops2, false);
    assert_eq!(fin.len(), 1);
    assert!(fin[0].final_blank);
    assert_eq!(fin[0].pattern, vec![0x00]);
    assert_eq!(final_passes(WipeMethod::Ops2, true).len(), 2);
    assert!(final_passes(WipeMethod::Dod, true).is_empty());
}

#[test]
fn pattern_fill_and_compare() {
    let mut buf = vec![0u8; 10];
    fill_pattern(&mut buf, &vec![1, 2, 3]);
    assert_eq!(buf, vec![1, 2, 3, 1, 2, 3, 1, 2, 3, 1]);
    let expected = vec![9, 9, 1, 2, 3, 4];
    assert_eq!(first_mismatch(&expected, 2, &vec![1, 2, 3]), None);
    assert_eq!(first_mismatch(&expected, 2, &vec![1, 5, 3]), Some(1));
    assert_eq!(first_mismatch(&expected, 0, &vec![]), None);
    assert_eq!(chunk_len(10 * BUF as u64, 0), BUF);
    assert_eq!(chunk_len(10 * BUF as u64 + 7, 10 * BUF as u64), 7);
    assert_eq!(chunk_len(5, 5), 0);
    assert_eq!(zeroed(3), vec![0, 0, 0]);
}

#[test]
fn percent_formulas() {
    assert_eq!(pass_percent(0, 0), 100);
    assert_eq!(pass_percent(1, 3), 33);
    assert_eq!(pass_percent(u64::MAX, u64::MAX), 100);
    assert_eq!(round_percent(0, 3, 50), 16);
    assert_eq!(round_percent(2, 3, 100), 100);
    assert_eq!(round_percent(1, 2, 0), 50);
}

#[test]
fn eta_and_throughput() {
    let mut p = Progress::new();
    p.bytes_total = 1000;
    update_eta_throughput(&mut p, 5000, 10);
    assert_eq!(p.throughput, 100);
    assert_eq!(p.eta, 40);
    update_eta_throughput(&mut p, 500, 0);
    assert_eq!(p.throughput, 1000);
    assert_eq!(p.eta, 0);
    p.bytes_total = 0;
    update_eta_throughput(&mut p, u64::MAX, 5);
    assert_eq!(p.throughput, 0);
    assert_eq!(p.eta, i64::MAX);
}

#[test]
fn seconds_split() {
    let (mut h, mut m, mut s) = (0, 0, 0);
    convert_seconds_to_hours_minutes_seconds(3725, &mut h, &mut m, &mut s);
    assert_eq!((h, m, s), (1, 2, 5));
    convert_seconds_to_hours_minutes_seconds(59, &mut h, &mut m, &mut s);
    assert_eq!((h, m, s), (0, 0, 59));
    convert_seconds_to_hours_minutes_seconds(86400, &mut h, &mut m, &mut s);
    assert_eq!((h, m, s), (24, 0, 0));
}

#[test]
fn log_levels() {
    assert_eq!(LogLevel::Fatal.label(), "FATAL");
    assert_eq!(LogLevel::Error.label(), "ERROR");
    assert_eq!(LogLevel::Warning.label(), "WARNING");
    assert_eq!(LogLevel::Notice.label(), "NOTICE");
    assert_eq!(LogLevel::Info.label(), "INFO");
    assert_eq!(LogLevel::Debug.label(), "DEBUG");
    assert!(LogLevel::Fatal < LogLevel::Error && LogLevel::Info < LogLevel::Debug);
    assert!(LogLevel::Error.enabled(LogLevel::Notice));
    assert!(!LogLevel::Debug.enabled(LogLevel::Info));
}

#[test]
fn error_lines() {
    assert_eq!(perror_line("open", "cannot open /dev/sda", "No such file"), "open(): cannot open /dev/sda: No such file");
    let line = nwipe_perror(2, "open", "cannot open");
    assert!(line.starts_with("open(): cannot open: "));
    assert!(line.len() > "open(): cannot open: ".len());
}

#[test]
fn outcomes() {
    assert_eq!(wipe_outcome(0, 2), WipeOutcome::Completed);
    assert_eq!(wipe_outcome(1, 2), WipeOutcome::Interrupted { signal: 2 });
    assert_eq!(wipe_outcome(-1, 0), WipeOutcome::Failed { code: -1 });
}

#[test]
fn aggregate_exit_codes() {
    assert_eq!(aggregate_results(&vec![]), 0);
    assert_eq!(aggregate_results(&vec![0, 0]), 0);
    assert_eq!(aggregate_results(&vec![0, 1, 0]), 1);
    assert_eq!(aggregate_results(&vec![1, -1, 0]), -1);
    assert_eq!(exit_code(0), 0);
    assert_eq!(exit_code(1), 1);
    assert_eq!(exit_code(-1), 1);
}

#[test]
fn device_selection() {
    let mut cs = vec![NwipeContext::new("/dev/sda"), NwipeContext::new("/dev/sdb")];
    select_devices(&mut cs, true);
    assert!(cs.iter().all(|c| c.select == SelectStatus::True));
    assert_eq!(cs[1].device_name, "/dev/sdb");
    cs[0].select = SelectStatus::Disabled;
    assert_eq!(selected_indices(&cs), vec![1]);
    select_devices(&mut cs, false);
    assert!(selected_indices(&cs).is_empty());
}

#[test]
fn defaults() {
    let c = NwipeContext::new("/dev/sdc");
    assert_eq!(c.device_name, "/dev/sdc");
    assert_eq!(c.method, "ops2");
    assert_eq!(c.prng, "isaac");
    assert_eq!(c.wipe_status, -1);
    assert_eq!(c.select, SelectStatus::False);
    let id = DeviceIdentity::default();
    assert!(id.model_no.is_empty() && id.serial_no.is_empty() && id.firmware_rev.is_empty());
    let seed = PrngSeed::default();
    assert_eq!(seed.length, 0);
    let o = NwipeOptions::default();
    assert_eq!(o.method, "ops2");
    assert_eq!(o.rounds, 1);
    assert!(o.verify && o.modern_gui);
}

#[test]
fn options_from_command_line() {
    let args = CommandLine {
        autonuke: true,
        exclude_mounted: false,
        nogui: true,
        traditional_ui: false,
        nowait: true,
        nosignals: false,
        autopoweroff: false,
        verbose: true,
        prng: "twister".to_string(),
        method: "dod".to_string(),
        rounds: 2,
        verify: true,
        device_names: vec!["/dev/sdz".to_string()],
    };
    let o = parse_options(args.clone());
    assert!(o.autonuke && o.nogui && !o.modern_gui && o.nowait && o.verbose && o.verify);
    assert_eq!(o.method, "dod");
    assert_eq!(o.rounds, 2);
    assert_eq!(o.device_names, vec!["/dev/sdz".to_string()]);
    assert_eq!(check_options(&o), Ok(()));
    let mut bad = o.clone();
    bad.autonuke = false;
    assert_eq!(check_options(&bad), Err(OptionsError::NoguiWithoutAutonuke));
    bad.rounds = 0;
    assert_eq!(check_options(&bad), Err(OptionsError::InvalidRounds));
    let mut t = args;
    t.nogui = false;
    t.traditional_ui = true;
    assert!(!parse_options(t.clone()).modern_gui);
    t.traditional_ui = false;
    assert!(parse_options(t).modern_gui);
}

#[test]
fn version_strings() {
    assert_eq!(version_string(), "nwipe 0.3.0 (Rust Edition)");
    assert!(copyright_string().starts_with("Copyright (C) 2025"));
    assert_eq!(version_info(), format!("{}\n{}", version_string(), copyright_string()));
}

#[test]
fn mount_table_sources() {
    let table = b"/dev/sda1 / ext4 rw 0 0\nproc /proc proc rw 0 0\n/dev/sdb\t/mnt vfat rw 0 0\n".to_vec();
    assert!(nwipe::mounts::device_is_mounted(&table, &b"/dev/sda1".to_vec()));
    assert!(nwipe::mounts::device_is_mounted(&table, &b"/dev/sdb".to_vec()));
    assert!(!nwipe::mounts::device_is_mounted(&table, &b"/dev/sda".to_vec()));
    assert!(!nwipe::mounts::device_is_mounted(&table, &b"/mnt".to_vec()));
    assert!(!nwipe::mounts::device_is_mounted(&table, &b"".to_vec()));
    assert!(!nwipe::mounts::device_is_mounted(&b"/dev/sdc".to_vec(), &b"/dev/sdc".to_vec()));
    assert!(!nwipe::mounts::device_is_mounted(&b"/dev/sdc \n".to_vec(), &b"/dev/sdc".to_vec()));
    assert!(nwipe::mounts::device_is_mounted(&b"proc /proc\n  /dev/sdd\t/x\n".to_vec(), &b"/dev/sdd".to_vec()));
    assert!(nwipe::mounts::device_is_mounted(&b"/dev/sde /y".to_vec(), &b"/dev/sde".to_vec()));
}

#[test]
fn requests_join_up_on_whole_words() {
    for kind in [PrngKind::Isaac, PrngKind::Twister, PrngKind::System] {
        let s = seed_of(kind, 11);
        let mut g = Prng::from_seed(kind, &s);
        let mut a = vec![0u8; 120];
        g.fill_front(&mut a, 16);
        let mut b = vec![0u8; 100];
        g.fill_bytes(&mut b);
        let mut h = Prng::from_seed(kind, &s);
        let mut whole = vec![0u8; 116];
        h.fill_bytes(&mut whole);
        assert_eq!(&a[..16], &whole[..16]);
        assert!(a[16..].iter().all(|x| *x == 0));
        assert_eq!(&b[..], &whole[16..]);
    }
}

#[test]
fn eta_goes_negative_past_the_expected_total() {
    let mut p = Progress::new();
    p.bytes_total = 9000;
    update_eta_throughput(&mut p, 5000, 10);
    assert_eq!(p.throughput, 900);
    assert_eq!(p.eta, -4);
}

#[test]
fn summary_entries() {
    let mut c = NwipeContext::new("/dev/sdq");
    c.identity.serial_no = "S123".to_string();
    c.start_time = 100;
    c.end_time = 100 + 3725;
    c.progress.bytes_total = 5 * 1024 * 1024 + 7;
    c.result = 1;
    c.signal = 15;
    let e = nwipe::logging::summary_entry(&c);
    assert_eq!(e.outcome, WipeOutcome::Interrupted { signal: 15 });
    assert!(e.show_serial && !e.show_model);
    assert_eq!(e.duration, Some((1, 2, 5)));
    assert_eq!(e.megabytes, Some(5));
    let d = nwipe::logging::summary_entry(&NwipeContext::new("/dev/sdr"));
    assert_eq!(d.outcome, WipeOutcome::Completed);
    assert_eq!(d.duration, None);
    assert_eq!(d.megabytes, None);
}

#[test]
fn stream_requests_join_at_any_length() {
    for kind in [PrngKind::Isaac, PrngKind::Twister, PrngKind::System] {
        let s = seed_of(kind, 21);
        let mut g = nwipe::prng::PrngStream::new(kind, &s);
        let mut a = vec![0u8; 5];
        let mut b = vec![0u8; 11];
        let mut c = vec![0u8; 3];
        g.fill(&mut a);
        g.fill(&mut b);
        g.fill(&mut c);
        let mut h = nwipe::prng::PrngStream::new(kind, &s);
        let mut whole = vec![0u8; 19];
        h.fill(&mut whole);
        let joined: Vec<u8> = a.iter().chain(b.iter()).chain(c.iter()).cloned().collect();
        assert_eq!(joined, whole);
        let mut plain = vec![0u8; 19];
        Prng::from_seed(kind, &s).fill_bytes(&mut plain);
        assert_eq!(whole, plain);
        g.reseed(&s);
        let mut again = vec![0u8; 19];
        g.fill(&mut again);
        assert_eq!(again, whole);
    }
}
