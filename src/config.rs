//! The logger's settings: what to show before each message, and where to write.

use vstd::prelude::*;

verus! {

/// How the instant before a message is written.
#[derive(Clone, Copy, Debug, PartialEq, Eq)]
pub enum TimeFormatType {
    /// `HH:MM`
    Default,
    /// `HH:MM DD/MM/YYYY`
    ClockDateMonthYear,
}

/// How the level before a message is written.
#[derive(Clone, Copy, Debug, PartialEq, Eq)]
pub enum LevelFormatType {
    /// `[Name] `, colored by level.
    Default,
}

/// Where lines go.
#[derive(Clone, Copy, Debug, PartialEq, Eq)]
pub enum OutputType {
    Console,
}

/// The settings of a logger. `None` turns the matching prefix off.
#[derive(Clone, Copy, Debug, PartialEq, Eq)]
pub struct Config {
    pub time_option: Option<TimeFormatType>,
    pub level_option: Option<LevelFormatType>,
    pub output: OutputType,
}

/// Gathers the optional settings of a `Config`.
#[derive(Clone, Copy, Debug, PartialEq, Eq)]
pub struct ConfigBuilder {
    pub time_option: Option<TimeFormatType>,
    pub level_option: Option<LevelFormatType>,
}

impl Config {
    /// A builder with both prefixes off.
    pub fn builder() -> (b: ConfigBuilder)
        ensures
            b.time_option is None,
            b.level_option is None,
    {
        ConfigBuilder { time_option: None, level_option: None }
    }
}

impl ConfigBuilder {
    /// Sets how the instant is written; `None` writes none.
    pub fn timeformat(self, time_option: Option<TimeFormatType>) -> (b: ConfigBuilder)
        ensures
            b.time_option == time_option,
            b.level_option == self.level_option,
    {
        ConfigBuilder { time_option, ..self }
    }

    /// Sets how the level is written; `None` writes none.
    pub fn level_format(self, level_option: Option<LevelFormatType>) -> (b: ConfigBuilder)
        ensures
            b.level_option == level_option,
            b.time_option == self.time_option,
    {
        ConfigBuilder { level_option, ..self }
    }

    /// The settings gathered so far, writing to the console.
    pub fn build(self) -> (c: Config)
        ensures
            c.time_option == self.time_option,
            c.level_option == self.level_option,
            c.output == OutputType::Console,
    {
        Config { time_option: self.time_option, level_option: self.level_option, output: OutputType::Console }
    }
}

} // verus!
