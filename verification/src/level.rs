//! The severity renderer: maps each of the five severities to its display
//! string from a character table.

use vstd::prelude::*;
use vstd::string::StringExecFns;

verus! {

/// A log severity, lowest to highest.
#[derive(Clone, Copy, PartialEq, Eq, Structural)]
pub enum Severity {
    Trace,
    Debug,
    Info,
    Warn,
    Error,
}

/// The table of display strings for the five severities.
#[derive(Clone, Copy)]
pub struct FormatLevelChars {
    pub trace: &'static str,
    pub debug: &'static str,
    pub info: &'static str,
    pub warn: &'static str,
    pub error: &'static str,
}

impl FormatLevelChars {
    /// The classic glog table: `T`, `D`, `I`, `W`, `E`.
    pub fn const_default() -> (r: FormatLevelChars)
        ensures
            r.trace@ == "T"@,
            r.debug@ == "D"@,
            r.info@ == "I"@,
            r.warn@ == "W"@,
            r.error@ == "E"@,
    {
        FormatLevelChars { trace: "T", debug: "D", info: "I", warn: "W", error: "E" }
    }
}

impl Default for FormatLevelChars {
    fn default() -> (r: FormatLevelChars)
        ensures
            r.trace@ == "T"@,
            r.debug@ == "D"@,
            r.info@ == "I"@,
            r.warn@ == "W"@,
            r.error@ == "E"@,
    {
        FormatLevelChars::const_default()
    }
}

/// The table entry that `level` selects.
pub open spec fn spec_level_text(level: Severity, chars: FormatLevelChars) -> Seq<char> {
    match level {
        Severity::Trace => chars.trace@,
        Severity::Debug => chars.debug@,
        Severity::Info => chars.info@,
        Severity::Warn => chars.warn@,
        Severity::Error => chars.error@,
    }
}

/// A severity paired with the table it renders from.
pub struct FmtLevel {
    pub level: Severity,
    pub chars: FormatLevelChars,
}

impl FmtLevel {
    /// Packs a severity with its character table. The `ansi` toggle is
    /// accepted for symmetry with the other renderers; with styling
    /// disabled it changes nothing.
    pub fn format_level(level: Severity, chars: FormatLevelChars, ansi: bool) -> (r: FmtLevel)
        ensures
            r.level == level,
            r.chars == chars,
    {
        let _unused: bool = ansi;
        FmtLevel { level, chars }
    }

    /// The display string of this severity: exactly its table entry.
    pub fn render(&self) -> (r: String)
        ensures
            r@ == spec_level_text(self.level, self.chars),
    {
        match self.level {
            Severity::Trace => String::from_str(self.chars.trace),
            Severity::Debug => String::from_str(self.chars.debug),
            Severity::Info => String::from_str(self.chars.info),
            Severity::Warn => String::from_str(self.chars.warn),
            Severity::Error => String::from_str(self.chars.error),
        }
    }
}

} // verus!
