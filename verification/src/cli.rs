use vstd::prelude::*;

verus! {

/// Which front end drives the emulator.
#[derive(Debug, PartialEq, Eq, Structural, Clone, Copy)]
pub enum Renderer {
    Terminal,
    Gui,
    Ratatui,
}

impl Default for Renderer {
    fn default() -> (r: Self)
        ensures
            r == Renderer::Terminal,
    {
        Renderer::Terminal
    }
}

/// How much the emulator logs, from everything to nothing.
#[derive(Debug, PartialEq, Eq, Structural, Clone, Copy)]
pub enum LogLevel {
    Trace,
    Debug,
    Info,
    Warning,
    Error,
    Off,
}

impl Default for LogLevel {
    fn default() -> (r: Self)
        ensures
            r == LogLevel::Off,
    {
        LogLevel::Off
    }
}

/// The command line: front end, BIOS and game paths, and an optional log level.
#[derive(Debug, Clone)]
pub struct Args {
    pub render: Renderer,
    pub bios: String,
    pub game: String,
    pub log_level: Option<LogLevel>,
}

} // verus!
