use vstd::prelude::*;

pub mod analyzer;
pub mod tuple_parser;

verus! {

/// The raw argument record: one per invocation, filled by the command-line
/// front end and immutable once built.
///
/// `file` and `samplerate` are required; every other field is optional and
/// is resolved to its default by `analyzer::AnalyzerFactory::from`.
#[derive(Debug, Clone)]
pub struct Args {
    pub file: String,
    pub quiet: bool,
    pub outfile: Option<String>,
    pub samplerate: usize,
    pub freq_range: Option<(u64, u64)>,
    pub padding: Option<usize>,
    pub window: Option<crate::analyzer::WindowFunction>,
    pub channel: Option<usize>,
}

/// Compares two string slices character by character.
///
/// The result is exactly whether the two views agree, so contracts built on
/// it can speak of string contents directly.
pub fn str_eq(a: &str, b: &str) -> (r: bool)
    ensures
        r == (a@ == b@),
{
    let na = a.unicode_len();
    let nb = b.unicode_len();
    if na != nb {
        return false;
    }
    let mut i: usize = 0;
    while i < na
        invariant
            na == a@.len(),
            na == b@.len(),
            0 <= i <= na,
            forall|j: int| 0 <= j < i ==> a@[j] == b@[j],
        decreases na - i,
    {
        let ca = a.get_char(i);
        let cb = b.get_char(i);
        if ca != cb {
            return false;
        }
        i = i + 1;
    }
    proof {
        assert(a@ =~= b@);
    }
    true
}

} // verus!
