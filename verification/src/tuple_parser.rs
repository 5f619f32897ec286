use vstd::prelude::*;

verus! {

/// Which side of a `low:high` token a numeric failure concerns.
#[derive(Debug, Clone, Copy, PartialEq, Eq, Structural)]
pub enum Side {
    Low,
    High,
}

/// Failure taxonomy of the frequency-range parser.
///
/// A token with no colon has too few values, one with two or more colons has
/// too many, and a token with exactly one colon fails only if a side is not
/// an unsigned 64-bit decimal integer.
#[derive(Debug, Clone, Copy, PartialEq, Eq, Structural)]
pub enum RangeError {
    TooFewValues,
    TooManyValues,
    InvalidNumber(Side),
}

/// A decimal digit `'0'..='9'`.
pub open spec fn is_dec_digit(c: char) -> bool {
    48 <= c as int && c as int <= 57
}

/// The numeric value of a decimal digit.
pub open spec fn digit_val(c: char) -> int {
    c as int - 48
}

pub open spec fn all_dec_digits(s: Seq<char>) -> bool {
    forall|i: int| 0 <= i < s.len() ==> is_dec_digit(#[trigger] s[i])
}

/// The value of a digit string read as a base-10 numeral.
pub open spec fn dec_val(s: Seq<char>) -> int
    decreases s.len(),
{
    if s.len() == 0 {
        0
    } else {
        dec_val(s.drop_last()) * 10 + digit_val(s.last())
    }
}

/// A token that denotes an unsigned 64-bit integer: non-empty, all decimal
/// digits, and within range.
pub open spec fn is_u64_decimal(s: Seq<char>) -> bool {
    &&& s.len() > 0
    &&& all_dec_digits(s)
    &&& dec_val(s) <= u64::MAX
}

proof fn lemma_dec_val_nonneg(s: Seq<char>)
    requires
        all_dec_digits(s),
    ensures
        dec_val(s) >= 0,
    decreases s.len(),
{
    if s.len() > 0 {
        assert(all_dec_digits(s.drop_last()));
        lemma_dec_val_nonneg(s.drop_last());
    }
}

/// Reading more digits never makes the numeral smaller.
proof fn lemma_dec_val_prefix_le(s: Seq<char>, i: int, j: int)
    requires
        all_dec_digits(s),
        0 <= i <= j <= s.len(),
    ensures
        dec_val(s.take(i)) <= dec_val(s.take(j)),
    decreases j - i,
{
    if i < j {
        lemma_dec_val_prefix_le(s, i, j - 1);
        assert(s.take(j).drop_last() =~= s.take(j - 1));
        assert(all_dec_digits(s.take(j - 1)));
        lemma_dec_val_nonneg(s.take(j - 1));
        assert(s.take(j).last() == s[j - 1]);
    }
}

/// Parses a string as an unsigned 64-bit decimal integer.
///
/// Succeeds exactly on the tokens that `is_u64_decimal` admits, and then
/// returns their numeric value.
pub fn parse_u64_decimal(s: &str) -> (r: Option<u64>)
    ensures
        r == (if is_u64_decimal(s@) {
            Some(dec_val(s@) as u64)
        } else {
            None::<u64>
        }),
{
    let n = s.unicode_len();
    if n == 0 {
        return None;
    }
    let mut acc: u64 = 0;
    let mut i: usize = 0;
    while i < n
        invariant
            n == s@.len(),
            0 < n,
            0 <= i <= n,
            all_dec_digits(s@.take(i as int)),
            acc == dec_val(s@.take(i as int)),
        decreases n - i,
    {
        let c = s.get_char(i);
        let u = c as u32;
        if u < 48 || u > 57 {
            assert(!is_dec_digit(s@[i as int]));
            return None;
        }
        let d: u64 = (u - 48) as u64;
        proof {
            assert(s@.take(i + 1).drop_last() =~= s@.take(i as int));
            assert(s@.take(i + 1).last() == s@[i as int]);
            assert(all_dec_digits(s@.take(i + 1)));
        }
        if acc > (u64::MAX - d) / 10 {
            proof {
                assert(acc * 10 + d > u64::MAX) by (nonlinear_arith)
                    requires
                        acc > (u64::MAX - d) / 10,
                        0 <= d <= 9,
                        acc <= u64::MAX,
                ;
                assert(dec_val(s@.take(i + 1)) > u64::MAX);
                if all_dec_digits(s@) {
                    lemma_dec_val_prefix_le(s@, i + 1, n as int);
                    assert(s@.take(n as int) =~= s@);
                }
            }
            return None;
        }
        proof {
            assert(acc * 10 + d <= u64::MAX) by (nonlinear_arith)
                requires
                    acc <= (u64::MAX - d) / 10,
                    0 <= d <= 9,
            ;
        }
        acc = acc * 10 + d;
        i = i + 1;
    }
    proof {
        assert(s@.take(n as int) =~= s@);
    }
    Some(acc)
}

/// No character of `s` in the index range `[a, b)` is a colon.
pub open spec fn colon_free(s: Seq<char>, a: int, b: int) -> bool {
    forall|j: int| a <= j < b ==> (#[trigger] s[j]) != ':'
}

/// The token has exactly one colon, and it stands at index `i`.
pub open spec fn single_colon_at(s: Seq<char>, i: int) -> bool {
    &&& 0 <= i < s.len()
    &&& s[i] == ':'
    &&& colon_free(s, 0, i)
    &&& colon_free(s, i + 1, s.len() as int)
}

/// The outcome of reading the two sides of a token split at index `i`.
pub open spec fn split_parse(s: Seq<char>, i: int) -> Result<(u64, u64), RangeError> {
    let lo = s.take(i);
    let hi = s.skip(i + 1);
    if !is_u64_decimal(lo) {
        Err(RangeError::InvalidNumber(Side::Low))
    } else if !is_u64_decimal(hi) {
        Err(RangeError::InvalidNumber(Side::High))
    } else {
        Ok((dec_val(lo) as u64, dec_val(hi) as u64))
    }
}

/// What parsing a frequency-range token yields: the sides of the single
/// colon read as unsigned 64-bit decimal integers, or the error that the
/// token's shape dictates.
pub open spec fn parse_range_spec(s: Seq<char>) -> Result<(u64, u64), RangeError> {
    if colon_free(s, 0, s.len() as int) {
        Err(RangeError::TooFewValues)
    } else if exists|i: int| single_colon_at(s, i) {
        split_parse(s, choose|i: int| single_colon_at(s, i))
    } else {
        Err(RangeError::TooManyValues)
    }
}

/// A token has at most one single-colon position.
pub proof fn lemma_single_colon_unique(s: Seq<char>, i: int, j: int)
    requires
        single_colon_at(s, i),
        single_colon_at(s, j),
    ensures
        i == j,
{
    if i < j {
        assert(s[j] != ':');
    }
    if j < i {
        assert(s[i] != ':');
    }
}

/// Two colons anywhere rule out every single-colon position.
pub proof fn lemma_two_colons(s: Seq<char>, a: int, b: int)
    requires
        0 <= a < b < s.len(),
        s[a] == ':',
        s[b] == ':',
    ensures
        forall|k: int| !single_colon_at(s, k),
{
    assert forall|k: int| !single_colon_at(s, k) by {
        if single_colon_at(s, k) {
            if k < b {
                assert(s[b] != ':');
            } else {
                assert(s[a] != ':');
            }
        }
    }
}

/// Law: a token assembled as `low:high` from two in-range decimal numerals
/// parses to exactly that pair of values.
pub proof fn lemma_parse_pair(lo: Seq<char>, hi: Seq<char>)
    requires
        is_u64_decimal(lo),
        is_u64_decimal(hi),
    ensures
        parse_range_spec(lo + seq![':'] + hi) == Ok::<(u64, u64), RangeError>(
            ((dec_val(lo) as u64), (dec_val(hi) as u64)),
        ),
{
    let mid = lo + seq![':'];
    let s = mid + hi;
    let i = lo.len() as int;
    assert(s.len() == lo.len() + 1 + hi.len());
    assert(s[i] == ':');
    assert forall|j: int| 0 <= j < i implies (#[trigger] s[j]) != ':' by {
        assert(s[j] == mid[j]);
        assert(mid[j] == lo[j]);
        assert(is_dec_digit(lo[j]));
    }
    assert forall|j: int| i + 1 <= j < s.len() implies (#[trigger] s[j]) != ':' by {
        assert(s[j] == hi[j - i - 1]);
        assert(is_dec_digit(hi[j - i - 1]));
    }
    assert(single_colon_at(s, i));
    let k = choose|k: int| single_colon_at(s, k);
    lemma_single_colon_unique(s, k, i);
    assert(s.take(i) =~= lo);
    assert(s.skip(i + 1) =~= hi);
}

/// Law: a token without a colon fails with `TooFewValues`.
pub proof fn lemma_parse_too_few(s: Seq<char>)
    requires
        colon_free(s, 0, s.len() as int),
    ensures
        parse_range_spec(s) == Err::<(u64, u64), RangeError>(RangeError::TooFewValues),
{
}

/// Law: a token with two or more colons fails with `TooManyValues`.
pub proof fn lemma_parse_too_many(s: Seq<char>, a: int, b: int)
    requires
        0 <= a < b < s.len(),
        s[a] == ':',
        s[b] == ':',
    ensures
        parse_range_spec(s) == Err::<(u64, u64), RangeError>(RangeError::TooManyValues),
{
    lemma_two_colons(s, a, b);
    assert(!colon_free(s, 0, s.len() as int));
}

/// Law: with exactly one colon, a side that is not an unsigned 64-bit
/// decimal numeral fails with `InvalidNumber` naming that side, the low
/// side reported first.
pub proof fn lemma_parse_bad_side(s: Seq<char>, i: int)
    requires
        single_colon_at(s, i),
    ensures
        !is_u64_decimal(s.take(i)) ==> parse_range_spec(s) == Err::<(u64, u64), RangeError>(
            RangeError::InvalidNumber(Side::Low),
        ),
        is_u64_decimal(s.take(i)) && !is_u64_decimal(s.skip(i + 1)) ==> parse_range_spec(s)
            == Err::<(u64, u64), RangeError>(RangeError::InvalidNumber(Side::High)),
{
    assert(s[i] == ':');
    let k = choose|k: int| single_colon_at(s, k);
    lemma_single_colon_unique(s, k, i);
}

/// Law: parsing is deterministic — two results of parsing the same token
/// are structurally equal, so re-parsing a token repeats its outcome.
pub proof fn lemma_parse_deterministic(
    s: Seq<char>,
    r1: Result<(u64, u64), RangeError>,
    r2: Result<(u64, u64), RangeError>,
)
    requires
        r1 == parse_range_spec(s),
        r2 == parse_range_spec(s),
    ensures
        r1 == r2,
{
}

/// The frequency-range token parser: splits `low:high` on the colon and
/// reads both sides as unsigned 64-bit decimal integers.
#[derive(Debug, Clone, Copy)]
pub struct TupleParser;

impl TupleParser {
    /// Parses a `low:high` token.
    ///
    /// Exactly one colon is required: none fails with `TooFewValues`, two or
    /// more with `TooManyValues`. A side that is not an unsigned 64-bit
    /// decimal integer fails with `InvalidNumber` naming that side, the low
    /// side reported first.
    pub fn parse(&self, raw: &str) -> (r: Result<(u64, u64), RangeError>)
        ensures
            r == parse_range_spec(raw@),
    {
        let n = raw.unicode_len();
        let mut colons: usize = 0;
        let mut first: usize = 0;
        let mut second: usize = 0;
        let mut i: usize = 0;
        while i < n
            invariant
                n == raw@.len(),
                0 <= i <= n,
                colons <= i,
                colons == 0 ==> colon_free(raw@, 0, i as int),
                colons == 1 ==> first < i && raw@[first as int] == ':' && colon_free(
                    raw@,
                    0,
                    first as int,
                ) && colon_free(raw@, first as int + 1, i as int),
                colons >= 2 ==> first < second < i && raw@[first as int] == ':' && raw@[
                    second as int
                ] == ':',
            decreases n - i,
        {
            let c = raw.get_char(i);
            if c == ':' {
                if colons == 0 {
                    first = i;
                } else if colons == 1 {
                    second = i;
                }
                colons = colons + 1;
            }
            i = i + 1;
        }
        if colons == 0 {
            return Err(RangeError::TooFewValues);
        }
        if colons >= 2 {
            proof {
                lemma_two_colons(raw@, first as int, second as int);
                assert(raw@[first as int] == ':');
            }
            return Err(RangeError::TooManyValues);
        }
        proof {
            assert(single_colon_at(raw@, first as int));
            assert(raw@[first as int] == ':');
            let k = choose|i: int| single_colon_at(raw@, i);
            lemma_single_colon_unique(raw@, k, first as int);
        }
        let lo = raw.substring_char(0, first);
        let hi = raw.substring_char(first + 1, n);
        proof {
            assert(lo@ =~= raw@.take(first as int));
            assert(hi@ =~= raw@.skip(first as int + 1));
        }
        match parse_u64_decimal(lo) {
            None => Err(RangeError::InvalidNumber(Side::Low)),
            Some(a) => match parse_u64_decimal(hi) {
                None => Err(RangeError::InvalidNumber(Side::High)),
                Some(b) => Ok((a, b)),
            },
        }
    }
}

} // verus!
