//! The clock provider: shows the local time of day in a 24-hour or 12-hour
//! format, with or without seconds. Reading the clock happens before the
//! render; this provider formats the parts it is given.

use vstd::prelude::*;

use crate::chars::push_char;
use crate::chars::spec_two_digits;
use crate::chars::two_digit_string;
use crate::error::ErrorV;
use crate::error::PromptError;
use crate::module_trait::Module;
use crate::module_trait::ModuleContext;

verus! {

/// A local time of day, split into its components.
#[derive(Debug, Clone, Copy, PartialEq, Eq, Structural)]
pub struct TimeParts {
    /// The hour on the 24-hour clock.
    pub hour24: u8,
    pub minute: u8,
    pub second: u8,
}

/// The hour on the 12-hour clock with its AM or PM suffix: hours from 12
/// onward are PM, and hour zero reads as 12.
pub open spec fn spec_hour12(hour24: u8) -> (int, Seq<char>) {
    let suffix = if hour24 >= 12 {
        "PM"@
    } else {
        "AM"@
    };
    let hour = hour24 as int % 12;
    if hour == 0 {
        (12, suffix)
    } else {
        (hour, suffix)
    }
}

impl TimeParts {
    /// The hour on the 12-hour clock with its AM or PM suffix.
    pub fn hour12(&self) -> (r: (u8, &'static str))
        ensures
            r.0 as int == spec_hour12(self.hour24).0,
            r.1@ == spec_hour12(self.hour24).1,
    {
        let suffix: &'static str = if self.hour24 >= 12 {
            "PM"
        } else {
            "AM"
        };
        let mut hour = self.hour24 % 12;
        if hour == 0 {
            hour = 12;
        }
        (hour, suffix)
    }
}

/// The four time formats: hours and minutes or hours, minutes and seconds,
/// on the 24-hour or the 12-hour clock.
enum FormatSpec {
    Hm24,
    Hms24,
    Hm12,
    Hms12,
}

/// Which time format a format field selects, if any.
pub open spec fn spec_time_format(f: Seq<char>) -> Option<int> {
    if f.len() == 0 || f == "24h"@ {
        Some(0)
    } else if f == "24hs"@ || f == "24HS"@ {
        Some(1)
    } else if f == "12h"@ || f == "12H"@ {
        Some(2)
    } else if f == "12hs"@ || f == "12HS"@ {
        Some(3)
    } else {
        None
    }
}

/// The text a time format renders: two-digit components separated by
/// colons, with the AM or PM suffix on the 12-hour clock.
pub open spec fn spec_time_text(kind: int, parts: TimeParts) -> Seq<char> {
    if kind == 0 {
        spec_two_digits(parts.hour24 as int) + seq![':'] + spec_two_digits(parts.minute as int)
    } else if kind == 1 {
        spec_two_digits(parts.hour24 as int) + seq![':'] + spec_two_digits(parts.minute as int)
            + seq![':'] + spec_two_digits(parts.second as int)
    } else if kind == 2 {
        spec_two_digits(spec_hour12(parts.hour24).0) + seq![':'] + spec_two_digits(
            parts.minute as int,
        ) + spec_hour12(parts.hour24).1
    } else {
        spec_two_digits(spec_hour12(parts.hour24).0) + seq![':'] + spec_two_digits(
            parts.minute as int,
        ) + seq![':'] + spec_two_digits(parts.second as int) + spec_hour12(parts.hour24).1
    }
}

impl FormatSpec {
    /// The format's index in the specification's numbering.
    spec fn kind(&self) -> int {
        match self {
            FormatSpec::Hm24 => 0,
            FormatSpec::Hms24 => 1,
            FormatSpec::Hm12 => 2,
            FormatSpec::Hms12 => 3,
        }
    }

    /// Renders a time in this format, as `spec_time_text` says.
    fn render(&self, parts: &TimeParts) -> (r: String)
        ensures
            r@ == spec_time_text(self.kind(), *parts),
    {
        match self {
            FormatSpec::Hm24 => {
                let mut out = two_digit_string(parts.hour24);
                push_char(&mut out, ':');
                let minutes = two_digit_string(parts.minute);
                out.append(minutes.as_str());
                proof {
                    assert(out@ =~= spec_time_text(self.kind(), *parts));
                }
                out
            },
            FormatSpec::Hms24 => {
                let mut out = two_digit_string(parts.hour24);
                push_char(&mut out, ':');
                let minutes = two_digit_string(parts.minute);
                out.append(minutes.as_str());
                push_char(&mut out, ':');
                let seconds = two_digit_string(parts.second);
                out.append(seconds.as_str());
                proof {
                    assert(out@ =~= spec_time_text(self.kind(), *parts));
                }
                out
            },
            FormatSpec::Hm12 => {
                let (hour, suffix) = parts.hour12();
                let mut out = two_digit_string(hour);
                push_char(&mut out, ':');
                let minutes = two_digit_string(parts.minute);
                out.append(minutes.as_str());
                out.append(suffix);
                proof {
                    assert(out@ =~= spec_time_text(self.kind(), *parts));
                }
                out
            },
            FormatSpec::Hms12 => {
                let (hour, suffix) = parts.hour12();
                let mut out = two_digit_string(hour);
                push_char(&mut out, ':');
                let minutes = two_digit_string(parts.minute);
                out.append(minutes.as_str());
                push_char(&mut out, ':');
                let seconds = two_digit_string(parts.second);
                out.append(seconds.as_str());
                out.append(suffix);
                proof {
                    assert(out@ =~= spec_time_text(self.kind(), *parts));
                }
                out
            },
        }
    }
}

/// What the clock provider renders: an unrecognized format is an error
/// listing the accepted ones; a provider without clock parts reports the
/// clock as unavailable; otherwise the formatted time.
pub open spec fn spec_time_render(parts: Option<TimeParts>, format: Seq<char>) -> Result<
    Option<Seq<char>>,
    ErrorV,
> {
    match spec_time_format(format) {
        None => Err(
            ErrorV::InvalidFormat {
                module: "time"@,
                format,
                valid_formats: "24h (default), 12h, 12H, 12hs, 12HS, 24hs, 24HS"@,
            },
        ),
        Some(kind) => match parts {
            None => Err(ErrorV::IoError("local time unavailable"@)),
            Some(p) => Ok(Some(spec_time_text(kind, p))),
        },
    }
}

/// Shows the local time of day, from clock parts supplied at construction.
pub struct TimeModule {
    parts: Option<TimeParts>,
}

impl View for TimeModule {
    type V = Option<TimeParts>;

    closed spec fn view(&self) -> Option<TimeParts> {
        self.parts
    }
}

impl TimeModule {
    /// A provider built from the clock parts the caller read, or from a
    /// failed clock read.
    pub fn new(parts: Option<TimeParts>) -> (r: Self)
        ensures
            r@ == parts,
    {
        TimeModule { parts }
    }

    /// Renders the time of day, as `spec_time_render` says.
    pub fn render(&self, format: &str, _context: &ModuleContext) -> (r: Result<
        Option<String>,
        PromptError,
    >)
        ensures
            match r {
                Ok(v) => spec_time_render(self@, format@) == Ok::<Option<Seq<char>>, ErrorV>(
                    v.deep_view(),
                ),
                Err(e) => spec_time_render(self@, format@) == Err::<Option<Seq<char>>, ErrorV>(e@),
            },
    {
        let spec = if format.unicode_len() == 0 || crate::chars::str_eq(format, "24h") {
            FormatSpec::Hm24
        } else if crate::chars::str_eq(format, "24hs") || crate::chars::str_eq(format, "24HS") {
            FormatSpec::Hms24
        } else if crate::chars::str_eq(format, "12h") || crate::chars::str_eq(format, "12H") {
            FormatSpec::Hm12
        } else if crate::chars::str_eq(format, "12hs") || crate::chars::str_eq(format, "12HS") {
            FormatSpec::Hms12
        } else {
            let mut valid = String::new();
            valid.append("24h (default), 12h, 12H, 12hs, 12HS, 24hs, 24HS");
            return Err(
                PromptError::InvalidFormat {
                    module: "time".to_owned(),
                    format: format.to_owned(),
                    valid_formats: valid,
                },
            );
        };
        match &self.parts {
            None => Err(PromptError::IoError("local time unavailable".to_owned())),
            Some(parts) => Ok(Some(spec.render(parts))),
        }
    }
}

impl Default for TimeModule {
    fn default() -> Self {
        TimeModule::new(None)
    }
}

impl Module for TimeModule {
    fn render(&self, format: &str, context: &ModuleContext) -> Result<Option<String>, PromptError> {
        TimeModule::render(self, format, context)
    }
}

} // verus!
