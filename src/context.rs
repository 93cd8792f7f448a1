use vstd::prelude::*;

verus! {

/// Whether a device takes part in the wipe.
#[derive(Clone, Copy, Debug, PartialEq, Eq, Structural)]
pub enum SelectStatus {
    /// The device is not selected.
    False,
    /// The device is selected.
    True,
    /// The device is selected because its parent is.
    TrueParent,
    /// The device cannot be wiped.
    Disabled,
}

/// What the current pass is doing.
#[derive(Clone, Copy, Debug, PartialEq, Eq, Structural)]
pub enum PassType {
    /// No pass is running.
    Idle,
    /// A pass writes to the device.
    Write,
    /// A pass reads the device back and compares it.
    Verify,
    /// The blanking pass that ends an OPS-II wipe.
    FinalBlank,
    /// The final OPS-II pass.
    FinalOps2,
}

/// The progress of one device's wipe, as a reader sees it.
#[derive(Clone, Copy, Debug)]
pub struct Progress {
    /// The number of rounds.
    pub round_count: u32,
    /// The round being run, from 1.
    pub round_working: u32,
    /// The number of write passes in one round.
    pub pass_count: u32,
    /// The pass being run within its round, from 1.
    pub pass_working: u32,
    /// What the current pass is doing.
    pub pass_type: PassType,
    /// How much of the current round is done, in percent.
    pub round_percent: u64,
    /// How much of the current pass is done, in percent.
    pub pass_percent: u64,
    /// Bytes written so far.
    pub bytes_written: u64,
    /// Bytes read back and found equal so far.
    pub bytes_verified: u64,
    /// Bytes written and verified so far.
    pub bytes_total: u64,
    /// Bytes per second since the start.
    pub throughput: u64,
    /// Seconds left, or 0 when unknown.
    pub eta: i64,
    /// Advances once per progress update.
    pub spinner_idx: u64,
    /// Whether the device is being synced.
    pub sync_status: bool,
}

impl Progress {
    /// A wipe that has not started.
    pub fn new() -> (r: Progress)
        ensures
            r.bytes_written == 0,
            r.bytes_verified == 0,
            r.bytes_total == 0,
            r.round_percent == 0,
            r.pass_percent == 0,
            r.spinner_idx == 0,
            r.pass_type == PassType::Idle,
            !r.sync_status,
    {
        Progress {
            round_count: 0,
            round_working: 0,
            pass_count: 0,
            pass_working: 0,
            pass_type: PassType::Idle,
            round_percent: 0,
            pass_percent: 0,
            bytes_written: 0,
            bytes_verified: 0,
            bytes_total: 0,
            throughput: 0,
            eta: 0,
            spinner_idx: 0,
            sync_status: false,
        }
    }
}

/// A device's model, serial number and firmware revision.
#[derive(Clone, Debug)]
pub struct DeviceIdentity {
    pub model_no: String,
    pub serial_no: String,
    pub firmware_rev: String,
}

impl Default for DeviceIdentity {
    fn default() -> (r: DeviceIdentity)
        ensures
            r.model_no@ == Seq::<char>::empty(),
            r.serial_no@ == Seq::<char>::empty(),
            r.firmware_rev@ == Seq::<char>::empty(),
    {
        DeviceIdentity { model_no: String::new(), serial_no: String::new(), firmware_rev: String::new() }
    }
}

/// A generator seed kept for replaying its stream.
#[derive(Clone, Debug)]
pub struct PrngSeed {
    /// The number of seed bytes.
    pub length: usize,
    /// The seed bytes.
    pub s: Vec<u8>,
}

impl Default for PrngSeed {
    fn default() -> (r: PrngSeed)
        ensures
            r.length == 0,
            r.s@ == Seq::<u8>::empty(),
    {
        PrngSeed { length: 0, s: Vec::new() }
    }
}

/// Everything known of one device and its wipe.
#[derive(Clone, Debug)]
pub struct NwipeContext {
    /// The device's path, used to name it in logs.
    pub device_name: String,
    /// The open handle of the device, or -1.
    pub device_fd: i32,
    /// The size of the device in bytes.
    pub device_size: u64,
    /// The sector size of the device in bytes.
    pub device_sector_size: u64,
    /// The preferred I/O size of the device in bytes.
    pub device_block_size: i32,
    /// The device's model, serial number and firmware revision.
    pub identity: DeviceIdentity,
    /// The name of the erasure method.
    pub method: String,
    /// The name of the generator.
    pub prng: String,
    /// The number of rounds.
    pub rounds: u32,
    /// Whether each write pass is read back and compared.
    pub verify: bool,
    /// The seed of the last generator write pass.
    pub prng_seed: PrngSeed,
    /// Whether the device takes part in the wipe.
    pub select: SelectStatus,
    /// The progress of the wipe.
    pub progress: Progress,
    /// 0 after success, positive after a cancellation, negative after a failure.
    pub result: i32,
    /// The signal that ended the wipe, or 0.
    pub signal: i32,
    /// When the wipe started, in seconds.
    pub start_time: u64,
    /// When the wipe ended, in seconds.
    pub end_time: u64,
    /// -1 before the wipe, 1 while it runs, 0 once it is over.
    pub wipe_status: i32,
}

impl Default for NwipeContext {
    fn default() -> (r: NwipeContext)
        ensures
            r.device_name@ == Seq::<char>::empty(),
            r.device_fd == -1,
            r.device_size == 0,
            r.method@ == "ops2"@,
            r.prng@ == "isaac"@,
            r.rounds == 1,
            r.verify,
            r.select == SelectStatus::False,
            r.result == 0,
            r.signal == 0,
            r.wipe_status == -1,
            r.progress.bytes_total == 0,
            r.progress.bytes_written == 0,
            r.progress.bytes_verified == 0,
            r.progress.pass_type == PassType::Idle,
    {
        NwipeContext {
            device_name: String::new(),
            device_fd: -1,
            device_size: 0,
            device_sector_size: 0,
            device_block_size: 0,
            identity: DeviceIdentity::default(),
            method: "ops2".to_owned(),
            prng: "isaac".to_owned(),
            rounds: 1,
            verify: true,
            prng_seed: PrngSeed::default(),
            select: SelectStatus::False,
            progress: Progress::new(),
            result: 0,
            signal: 0,
            start_time: 0,
            end_time: 0,
            wipe_status: -1,
        }
    }
}

impl NwipeContext {
    /// A context for the device at `device_name`, with default settings.
    pub fn new(device_name: &str) -> (r: NwipeContext)
        ensures
            r.device_name@ == device_name@,
            r.device_fd == -1,
            r.device_size == 0,
            r.method@ == "ops2"@,
            r.prng@ == "isaac"@,
            r.rounds == 1,
            r.verify,
            r.select == SelectStatus::False,
            r.result == 0,
            r.signal == 0,
            r.wipe_status == -1,
            r.progress.bytes_total == 0,
            r.progress.bytes_written == 0,
            r.progress.bytes_verified == 0,
            r.progress.pass_type == PassType::Idle,
    {
        let mut c = NwipeContext::default();
        c.device_name = device_name.to_owned();
        c
    }
}

} // verus!
