use vstd::prelude::*;

verus! {

/// The severity of a log record, from the most to the least severe.
#[derive(Clone, Copy, Debug, PartialEq, Eq, Structural)]
pub enum Level {
    Error,
    Warn,
    Info,
    Debug,
    Trace,
}

/// The least severe level that a logger lets through, or `Off`.
#[derive(Clone, Copy, Debug, PartialEq, Eq, Structural)]
pub enum LevelFilter {
    Off,
    Error,
    Warn,
    Info,
    Debug,
    Trace,
}

impl Level {
    /// Rank of the level: 1 for `Error` up to 5 for `Trace`.
    pub open spec fn rank(self) -> nat {
        match self {
            Level::Error => 1,
            Level::Warn => 2,
            Level::Info => 3,
            Level::Debug => 4,
            Level::Trace => 5,
        }
    }

    /// The upper-case name of the level, as ASCII bytes.
    pub open spec fn spec_name(self) -> Seq<u8> {
        match self {
            Level::Error => seq![69u8, 82u8, 82u8, 79u8, 82u8],
            Level::Warn => seq![87u8, 65u8, 82u8, 78u8],
            Level::Info => seq![73u8, 78u8, 70u8, 79u8],
            Level::Debug => seq![68u8, 69u8, 66u8, 85u8, 71u8],
            Level::Trace => seq![84u8, 82u8, 65u8, 67u8, 69u8],
        }
    }

    /// The upper-case name of the level ("ERROR", "WARN", "INFO", "DEBUG", "TRACE").
    pub fn name(self) -> (r: Vec<u8>)
        ensures
            r@ == self.spec_name(),
    {
        let r = match self {
            Level::Error => vec![69u8, 82u8, 82u8, 79u8, 82u8],
            Level::Warn => vec![87u8, 65u8, 82u8, 78u8],
            Level::Info => vec![73u8, 78u8, 70u8, 79u8],
            Level::Debug => vec![68u8, 69u8, 66u8, 85u8, 71u8],
            Level::Trace => vec![84u8, 82u8, 65u8, 67u8, 69u8],
        };
        assert(r@ =~= self.spec_name());
        r
    }
}

impl LevelFilter {
    /// Rank of the filter: 0 for `Off`, else the rank of the level of the same name.
    pub open spec fn rank(self) -> nat {
        match self {
            LevelFilter::Off => 0,
            LevelFilter::Error => 1,
            LevelFilter::Warn => 2,
            LevelFilter::Info => 3,
            LevelFilter::Debug => 4,
            LevelFilter::Trace => 5,
        }
    }

    /// Whether a record of `level` passes this filter.
    pub open spec fn spec_admits(self, level: Level) -> bool {
        level.rank() <= self.rank()
    }

    /// Whether a record of `level` passes this filter: its level is at least as
    /// severe as the filter's.
    pub fn admits(self, level: Level) -> (r: bool)
        ensures
            r == self.spec_admits(level),
    {
        let f: u8 = match self {
            LevelFilter::Off => 0,
            LevelFilter::Error => 1,
            LevelFilter::Warn => 2,
            LevelFilter::Info => 3,
            LevelFilter::Debug => 4,
            LevelFilter::Trace => 5,
        };
        let l: u8 = match level {
            Level::Error => 1,
            Level::Warn => 2,
            Level::Info => 3,
            Level::Debug => 4,
            Level::Trace => 5,
        };
        l <= f
    }
}

} // verus!
