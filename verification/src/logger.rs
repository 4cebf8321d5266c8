//! Logging utilities
//!
//! This module provides the levels and plain formatting options of a logging
//! system. Entries carry timestamps and structured metadata, so composing and
//! writing them is left to the surrounding program; the level order and the
//! level names are specified here.

use crate::text::chars_of;
use std::io::Write;
use crate::text::str_to_string;
use vstd::prelude::*;

verus! {

/// Log levels in order of severity
#[derive(Debug, Clone, Copy, PartialEq, Eq, PartialOrd, Ord, Structural, Hash)]
pub enum LogLevel {
    Trace,
    Debug,
    Info,
    Warn,
    Error,
}

/// The rank of a level: more severe levels rank higher.
pub open spec fn spec_severity(level: LogLevel) -> u8 {
    match level {
        LogLevel::Trace => 0,
        LogLevel::Debug => 1,
        LogLevel::Info => 2,
        LogLevel::Warn => 3,
        LogLevel::Error => 4,
    }
}

/// The display name of a level.
pub open spec fn spec_level_name(level: LogLevel) -> Seq<char> {
    match level {
        LogLevel::Trace => seq!['T', 'R', 'A', 'C', 'E'],
        LogLevel::Debug => seq!['D', 'E', 'B', 'U', 'G'],
        LogLevel::Info => seq!['I', 'N', 'F', 'O'],
        LogLevel::Warn => seq!['W', 'A', 'R', 'N'],
        LogLevel::Error => seq!['E', 'R', 'R', 'O', 'R'],
    }
}

/// The level a name denotes, compared with ASCII case folded.
pub open spec fn spec_level_of(s: Seq<char>) -> Option<LogLevel> {
    let t = s.map_values(|c: char| crate::bytes::spec_ascii_lower_char(c));
    if t == seq!['t', 'r', 'a', 'c', 'e'] {
        Some(LogLevel::Trace)
    } else if t == seq!['d', 'e', 'b', 'u', 'g'] {
        Some(LogLevel::Debug)
    } else if t == seq!['i', 'n', 'f', 'o'] {
        Some(LogLevel::Info)
    } else if t == seq!['w', 'a', 'r', 'n'] {
        Some(LogLevel::Warn)
    } else if t == seq!['e', 'r', 'r', 'o', 'r'] {
        Some(LogLevel::Error)
    } else {
        None
    }
}

impl LogLevel {
    /// The rank of this level: more severe levels rank higher.
    pub fn severity(&self) -> (r: u8)
        ensures
            r == spec_severity(*self),
    {
        match self {
            LogLevel::Trace => 0,
            LogLevel::Debug => 1,
            LogLevel::Info => 2,
            LogLevel::Warn => 3,
            LogLevel::Error => 4,
        }
    }

    /// Whether a message at this level passes a logger set to `threshold`:
    /// exactly when this level ranks at least as high.
    pub fn at_least(&self, threshold: LogLevel) -> (r: bool)
        ensures
            r == (spec_severity(*self) >= spec_severity(threshold)),
    {
        self.severity() >= threshold.severity()
    }

    /// The display name of this level.
    pub fn name(&self) -> (r: String)
        ensures
            r@ == spec_level_name(*self),
    {
        let mut r = String::new();
        match self {
            LogLevel::Trace => {
                r.push('T');
                r.push('R');
                r.push('A');
                r.push('C');
                r.push('E');
            },
            LogLevel::Debug => {
                r.push('D');
                r.push('E');
                r.push('B');
                r.push('U');
                r.push('G');
            },
            LogLevel::Info => {
                r.push('I');
                r.push('N');
                r.push('F');
                r.push('O');
            },
            LogLevel::Warn => {
                r.push('W');
                r.push('A');
                r.push('R');
                r.push('N');
            },
            LogLevel::Error => {
                r.push('E');
                r.push('R');
                r.push('R');
                r.push('O');
                r.push('R');
            },
        }
        proof {
            assert(r@ =~= spec_level_name(*self));
        }
        r
    }

    /// The rendered name, as the level displays itself.
    pub fn to_string(&self) -> (r: String)
        ensures
            r@ == spec_level_name(*self),
    {
        self.name()
    }

    /// Parse a level from its name, compared with ASCII case folded.
    ///
    /// The error message names the rejected input; it comes if and only if
    /// the name denotes no level.
    pub fn parse_level(s: &str) -> (r: Result<LogLevel, String>)
        ensures
            r matches Ok(level) ==> spec_level_of(s@) == Some(level),
            r matches Err(m) ==> spec_level_of(s@) is None && m@ == "Invalid log level: "@ + s@,
    {
        let chars = chars_of(s);
        let ghost t = s@.map_values(|c: char| crate::bytes::spec_ascii_lower_char(c));
        let mut lowered: Vec<char> = Vec::new();
        let mut i: usize = 0;
        while i < chars.len()
            invariant
                i <= chars@.len(),
                chars@ == s@,
                lowered@.len() == i,
                forall|j: int|
                    0 <= j < i ==> #[trigger] lowered@[j] == crate::bytes::spec_ascii_lower_char(
                        s@[j],
                    ),
            decreases chars@.len() - i,
        {
            lowered.push(crate::bytes::ascii_lower_char(chars[i]));
            i += 1;
        }
        proof {
            assert(lowered@ =~= t);
        }
        let level = if eq_chars(&lowered, &['t', 'r', 'a', 'c', 'e']) {
            Some(LogLevel::Trace)
        } else if eq_chars(&lowered, &['d', 'e', 'b', 'u', 'g']) {
            Some(LogLevel::Debug)
        } else if eq_chars(&lowered, &['i', 'n', 'f', 'o']) {
            Some(LogLevel::Info)
        } else if eq_chars(&lowered, &['w', 'a', 'r', 'n']) {
            Some(LogLevel::Warn)
        } else if eq_chars(&lowered, &['e', 'r', 'r', 'o', 'r']) {
            Some(LogLevel::Error)
        } else {
            None
        };
        match level {
            Some(level) => Ok(level),
            None => {
                let mut m = str_to_string("Invalid log level: ");
                m.append(s);
                Err(m)
            },
        }
    }
}

fn eq_chars(a: &Vec<char>, b: &[char]) -> (r: bool)
    ensures
        r == (a@ == b@),
{
    if a.len() != b.len() {
        proof {
            assert(a@.len() != b@.len());
        }
        return false;
    }
    let mut i: usize = 0;
    while i < a.len()
        invariant
            i <= a@.len(),
            a@.len() == b@.len(),
            forall|j: int| 0 <= j < i ==> a@[j] == b@[j],
        decreases a@.len() - i,
    {
        if a[i] != b[i] {
            return false;
        }
        i += 1;
    }
    proof {
        assert(a@ =~= b@);
    }
    true
}

impl std::str::FromStr for LogLevel {
    type Err = String;

    fn from_str(s: &str) -> Result<Self, String> {
        LogLevel::parse_level(s)
    }
}

/// Simple text formatter options
#[derive(Debug, Clone)]
pub struct SimpleFormatter {
    pub include_timestamp: bool,
    pub include_level: bool,
    pub include_logger_name: bool,
}

impl Default for SimpleFormatter {
    /// The default formatting: timestamp, level and logger name all included.
    fn default() -> (r: Self)
        ensures
            r.include_timestamp,
            r.include_level,
            r.include_logger_name,
    {
        SimpleFormatter { include_timestamp: true, include_level: true, include_logger_name: true }
    }
}

/// JSON formatter
#[derive(Debug, Clone)]
pub struct JsonFormatter;

impl Default for JsonFormatter {
    fn default() -> Self {
        JsonFormatter
    }
}

/// Log output trait: where formatted messages go.
pub trait LogOutput {
    fn write(&self, formatted_message: &str);
}

/// Console output
#[derive(Debug, Clone)]
pub struct ConsoleOutput;

impl Default for ConsoleOutput {
    fn default() -> Self {
        ConsoleOutput
    }
}

/// Relies on std's `writeln` to the standard output; nothing is assumed of
/// the outcome.
#[verifier::external_body]
fn console_write(formatted_message: &str) {
    let _ = writeln!(std::io::stdout(), "{}", formatted_message);
}

impl LogOutput for ConsoleOutput {
    fn write(&self, formatted_message: &str) {
        console_write(formatted_message);
    }
}

} // verus!
