use vstd::prelude::*;

verus! {

/// The severity of a log record, from the most verbose to the most severe.
#[derive(Clone, Copy, Debug, PartialEq, Eq, Hash, Structural)]
pub enum Level {
    Trace,
    Debug,
    Info,
    Warn,
    Error,
}

/// The mode a logger prints in: it decides both which records pass the global
/// threshold and how each line is laid out.
#[derive(Clone, Copy, Debug, PartialEq, Eq, Hash, Structural)]
pub enum DebugMode {
    /// Only warnings and errors, as `LEVEL: message`.
    HumanFriendly,
    /// Everything from `Debug` up, with a timestamp, the module and the target.
    Debug,
    /// Everything, with a precise timestamp, the source location and the target.
    Full,
}

/// Whether a sink writes ANSI colour codes.
#[derive(Clone, Copy, Debug, PartialEq, Eq, Hash, Structural)]
pub enum ColourChoice {
    /// Always colour.
    Yes,
    /// Never colour.
    No,
    /// Colour only when the destination is an interactive standard stream.
    Auto,
}

/// The mode that a count of verbosity flags selects.
pub open spec fn mode_of_count(n: nat) -> DebugMode {
    if n == 0 {
        DebugMode::HumanFriendly
    } else if n == 1 {
        DebugMode::Debug
    } else {
        DebugMode::Full
    }
}

/// The least severe level that the global threshold lets through in a mode.
pub open spec fn threshold_of(mode: DebugMode) -> Level {
    match mode {
        DebugMode::HumanFriendly => Level::Warn,
        DebugMode::Debug => Level::Debug,
        DebugMode::Full => Level::Trace,
    }
}

/// Whether a sink with this colour choice writes colour, given whether its
/// destination is an interactive standard stream.
pub open spec fn colour_of(choice: ColourChoice, is_terminal: bool) -> bool {
    match choice {
        ColourChoice::Yes => true,
        ColourChoice::No => false,
        ColourChoice::Auto => is_terminal,
    }
}

impl DebugMode {
    /// The mode for two command-line flags, where `trace` outranks `debug`.
    pub fn from_flags(trace: bool, debug: bool) -> (r: Self)
        ensures
            r == (if trace {
                DebugMode::Full
            } else if debug {
                DebugMode::Debug
            } else {
                DebugMode::HumanFriendly
            }),
    {
        let t: u32 = if trace { 1 } else { 0 };
        let d: u32 = if debug { 1 } else { 0 };
        Self::from_num(2 * t + d)
    }

    /// The mode for a verbosity count: 0 is friendly, 1 is debug, 2 or more is full.
    pub fn from_num(num: u32) -> (r: Self)
        ensures
            r == mode_of_count(num as nat),
    {
        match num {
            0 => DebugMode::HumanFriendly,
            1 => DebugMode::Debug,
            _ => DebugMode::Full,
        }
    }

    /// The global threshold installed with a logger in this mode: records less
    /// severe than this level are not passed on at all.
    pub fn max_level(&self) -> (r: Level)
        ensures
            r == threshold_of(*self),
    {
        match self {
            DebugMode::HumanFriendly => Level::Warn,
            DebugMode::Debug => Level::Debug,
            DebugMode::Full => Level::Trace,
        }
    }
}

impl ColourChoice {
    /// Resolves the choice once, for a destination that is or is not an
    /// interactive standard stream (any other destination counts as not).
    pub fn resolve(&self, is_terminal: bool) -> (r: bool)
        ensures
            r == colour_of(*self, is_terminal),
    {
        match self {
            ColourChoice::Yes => true,
            ColourChoice::No => false,
            ColourChoice::Auto => is_terminal,
        }
    }
}

} // verus!
