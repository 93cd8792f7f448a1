use vstd::prelude::*;

verus! {

/// The settings of one run of the program.
#[derive(Clone, Debug)]
pub struct NwipeOptions {
    /// Wipe every device found, without asking.
    pub autonuke: bool,
    /// Leave out devices that are mounted.
    pub exclude_mounted: bool,
    /// Run without any user interface.
    pub nogui: bool,
    /// Use the graphical interface rather than the terminal one.
    pub modern_gui: bool,
    /// Do not wait for a key before exiting.
    pub nowait: bool,
    /// Do not install signal handlers.
    pub nosignals: bool,
    /// Power the system off after a successful wipe.
    pub autopoweroff: bool,
    /// Log debug lines too.
    pub verbose: bool,
    /// The name of the generator.
    pub prng: String,
    /// The name of the erasure method.
    pub method: String,
    /// The number of rounds.
    pub rounds: i32,
    /// Read back and compare each write pass.
    pub verify: bool,
    /// The devices to wipe; none means every device found.
    pub device_names: Vec<String>,
}

impl Default for NwipeOptions {
    fn default() -> (r: NwipeOptions)
        ensures
            !r.autonuke,
            !r.exclude_mounted,
            !r.nogui,
            r.modern_gui,
            !r.nowait,
            !r.nosignals,
            !r.autopoweroff,
            !r.verbose,
            r.prng@ == "isaac"@,
            r.method@ == "ops2"@,
            r.rounds == 1,
            r.verify,
            r.device_names@.len() == 0,
    {
        NwipeOptions {
            autonuke: false,
            exclude_mounted: false,
            nogui: false,
            modern_gui: true,
            nowait: false,
            nosignals: false,
            autopoweroff: false,
            verbose: false,
            prng: "isaac".to_owned(),
            method: "ops2".to_owned(),
            rounds: 1,
            verify: true,
            device_names: Vec::new(),
        }
    }
}

/// The command line as given, flag by flag.
#[derive(Clone, Debug)]
pub struct CommandLine {
    pub autonuke: bool,
    pub exclude_mounted: bool,
    pub nogui: bool,
    pub traditional_ui: bool,
    pub nowait: bool,
    pub nosignals: bool,
    pub autopoweroff: bool,
    pub verbose: bool,
    pub prng: String,
    pub method: String,
    pub rounds: i32,
    pub verify: bool,
    pub device_names: Vec<String>,
}

/// The settings a command line asks for: each flag as given, and the
/// graphical interface unless the terminal interface or none is asked for.
pub fn parse_options(args: CommandLine) -> (r: NwipeOptions)
    ensures
        r.autonuke == args.autonuke,
        r.exclude_mounted == args.exclude_mounted,
        r.nogui == args.nogui,
        r.modern_gui == (!args.traditional_ui && !args.nogui),
        r.nowait == args.nowait,
        r.nosignals == args.nosignals,
        r.autopoweroff == args.autopoweroff,
        r.verbose == args.verbose,
        r.prng == args.prng,
        r.method == args.method,
        r.rounds == args.rounds,
        r.verify == args.verify,
        r.device_names == args.device_names,
{
    NwipeOptions {
        autonuke: args.autonuke,
        exclude_mounted: args.exclude_mounted,
        nogui: args.nogui,
        modern_gui: !args.traditional_ui && !args.nogui,
        nowait: args.nowait,
        nosignals: args.nosignals,
        autopoweroff: args.autopoweroff,
        verbose: args.verbose,
        prng: args.prng,
        method: args.method,
        rounds: args.rounds,
        verify: args.verify,
        device_names: args.device_names,
    }
}

/// Why a set of options cannot run.
#[derive(Clone, Copy, Debug, PartialEq, Eq, Structural)]
pub enum OptionsError {
    /// Running without an interface needs every device selected up front.
    NoguiWithoutAutonuke,
    /// The number of rounds is below 1.
    InvalidRounds,
}

/// Checks that the options can run: at least one round, and no run without
/// an interface unless every device is selected up front.
pub fn check_options(o: &NwipeOptions) -> (r: Result<(), OptionsError>)
    ensures
        o.rounds < 1 <==> r == Err::<(), OptionsError>(OptionsError::InvalidRounds),
        o.rounds >= 1 && o.nogui && !o.autonuke <==> r == Err::<(), OptionsError>(
            OptionsError::NoguiWithoutAutonuke,
        ),
        r is Ok <==> o.rounds >= 1 && !(o.nogui && !o.autonuke),
{
    if o.rounds < 1 {
        Err(OptionsError::InvalidRounds)
    } else if o.nogui && !o.autonuke {
        Err(OptionsError::NoguiWithoutAutonuke)
    } else {
        Ok(())
    }
}

} // verus!
