use vstd::prelude::*;

use crate::Args;
use crate::str_eq;

verus! {

/// The closed set of recognized window functions.
///
/// The variants only name the selection; the coefficient math belongs to the
/// downstream analysis engine.
#[derive(Debug, Clone, Copy, PartialEq, Eq, Structural)]
pub enum WindowFunction {
    Rectangle,
    Gauss,
    VonHann,
    Triangle,
    Blackman,
}

/// Failure of the window-name lookup: the name is none of the recognized
/// choices.
#[derive(Debug, Clone, Copy, PartialEq, Eq, Structural)]
pub enum WindowError {
    InvalidChoice,
}

/// The window function that a name denotes, or `None` for an unrecognized
/// name.
pub open spec fn window_of_name(s: Seq<char>) -> Option<WindowFunction> {
    if s == "rectangle"@ {
        Some(WindowFunction::Rectangle)
    } else if s == "gauss"@ {
        Some(WindowFunction::Gauss)
    } else if s == "vonhann"@ {
        Some(WindowFunction::VonHann)
    } else if s == "triangle"@ {
        Some(WindowFunction::Triangle)
    } else if s == "blackman"@ {
        Some(WindowFunction::Blackman)
    } else {
        None
    }
}

impl WindowFunction {
    /// Looks a window function up by its recognized name.
    ///
    /// Succeeds exactly on the five names that `window_of_name` recognizes;
    /// any other name is an invalid choice.
    pub fn from_name(name: &str) -> (r: Result<WindowFunction, WindowError>)
        ensures
            r == (match window_of_name(name@) {
                Some(w) => Ok::<WindowFunction, WindowError>(w),
                None => Err::<WindowFunction, WindowError>(WindowError::InvalidChoice),
            }),
    {
        if str_eq(name, "rectangle") {
            Ok(WindowFunction::Rectangle)
        } else if str_eq(name, "gauss") {
            Ok(WindowFunction::Gauss)
        } else if str_eq(name, "vonhann") {
            Ok(WindowFunction::VonHann)
        } else if str_eq(name, "triangle") {
            Ok(WindowFunction::Triangle)
        } else if str_eq(name, "blackman") {
            Ok(WindowFunction::Blackman)
        } else {
            Err(WindowError::InvalidChoice)
        }
    }
}

/// The resolved analysis configuration: the immutable value handed to the
/// downstream analysis engine.
#[derive(Debug, Clone)]
pub struct AnalyzerFactory {
    pub file: String,
    pub outfile: String,
    pub samplerate: usize,
    pub freq_range: Option<(u64, u64)>,
    pub padding: usize,
    pub window: WindowFunction,
    pub channel: Option<usize>,
}

impl AnalyzerFactory {
    /// Resolves the raw argument record into the final configuration.
    ///
    /// Total over all records; each default rule applies independently:
    /// a missing outfile becomes `{file}.json`, a missing padding becomes 0,
    /// a missing window becomes `VonHann`, and every supplied value is kept
    /// unchanged. `freq_range` and `channel` stay absent when absent.
    pub fn from(args: Args) -> (r: AnalyzerFactory)
        ensures
            r.file@ == args.file@,
            r.outfile@ == (match args.outfile {
                Some(o) => o@,
                None => args.file@ + ".json"@,
            }),
            r.samplerate == args.samplerate,
            r.freq_range == args.freq_range,
            r.padding == (match args.padding {
                Some(p) => p,
                None => 0usize,
            }),
            r.window == (match args.window {
                Some(w) => w,
                None => WindowFunction::VonHann,
            }),
            r.channel == args.channel,
    {
        let outfile = match args.outfile {
            Some(o) => o,
            None => args.file.clone().concat(".json"),
        };
        let padding = match args.padding {
            Some(p) => p,
            None => 0,
        };
        let window = match args.window {
            Some(w) => w,
            None => WindowFunction::VonHann,
        };
        AnalyzerFactory {
            file: args.file,
            outfile,
            samplerate: args.samplerate,
            freq_range: args.freq_range,
            padding,
            window,
            channel: args.channel,
        }
    }
}

} // verus!
