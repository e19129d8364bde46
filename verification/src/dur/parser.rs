//! The duration-expression parser: a lexer over characters and an
//! accumulation loop, verified against a spec-level model of the
//! same grammar.
//!
//! The grammar is a sequence of `<integer><unit>` pairs, optionally
//! separated by whitespace; a bare integer is legal only as the last
//! token of the whole expression and counts as seconds.  The pairs
//! accumulate by addition, and the total saturates instead of
//! overflowing.

use vstd::prelude::*;
use vstd::string::StrSliceExecFns;

use crate::dur::clip_nanos;
use crate::dur::Duration;
use crate::dur::Error;
use crate::dur::error::ErrorKindV;
use crate::dur::error::ErrorV;

verus! {

/// A recognized unit of time.
#[derive(Clone, Copy, Debug, PartialEq, Eq, Structural)]
pub enum Unit {
    Nanos,
    Micros,
    Millis,
    Sec,
    Min,
    Hour,
    Day,
    Week,
    Year,
}

/// How many nanoseconds one of each unit lasts; a year is 365 days
/// exactly, with no calendar awareness.
pub open spec fn unit_nanos(u: Unit) -> int {
    match u {
        Unit::Nanos => 1,
        Unit::Micros => 1_000,
        Unit::Millis => 1_000_000,
        Unit::Sec => 1_000_000_000,
        Unit::Min => 60_000_000_000,
        Unit::Hour => 3_600_000_000_000,
        Unit::Day => 86_400_000_000_000,
        Unit::Week => 604_800_000_000_000,
        Unit::Year => 31_536_000_000_000_000,
    }
}

impl Unit {
    /// The span of `n` of this unit, clipped at the largest
    /// representable span.
    pub fn duration(&self, n: u128) -> (d: Duration)
        ensures
            d@ == clip_nanos(n * unit_nanos(*self)),
    {
        let scale: u128 = match self {
            Unit::Nanos => 1,
            Unit::Micros => 1_000,
            Unit::Millis => 1_000_000,
            Unit::Sec => 1_000_000_000,
            Unit::Min => 60_000_000_000,
            Unit::Hour => 3_600_000_000_000,
            Unit::Day => 86_400_000_000_000,
            Unit::Week => 604_800_000_000_000,
            Unit::Year => 31_536_000_000_000_000,
        };
        let nanos: u128 = match n.checked_mul(scale) {
            Some(v) => v,
            None => u128::MAX,
        };
        Duration::from_total_nanos(nanos)
    }
}

// ---------------------------------------------------------------------------
// Named results of Unicode-table-driven `std` character functions.
// ---------------------------------------------------------------------------

/// What char::is_whitespace returns for `c`.
pub uninterp spec fn spec_is_space(c: char) -> bool;

/// What char::is_alphabetic returns for `c`.
pub uninterp spec fn spec_is_alpha(c: char) -> bool;

/// The characters char::to_lowercase yields for `c`.
pub uninterp spec fn spec_lower(c: char) -> Seq<char>;

/// Relies on char::is_whitespace: whether a character has the
/// White_Space property depends on the character alone.
#[verifier::external_body]
fn is_space(c: char) -> (r: bool)
    ensures
        r == spec_is_space(c),
{
    c.is_whitespace()
}

/// Relies on char::is_alphabetic: whether a character has the
/// Alphabetic property depends on the character alone.
#[verifier::external_body]
fn is_alpha(c: char) -> (r: bool)
    ensures
        r == spec_is_alpha(c),
{
    c.is_alphabetic()
}

/// Relies on char::to_lowercase: the lowercase mapping of a character
/// depends on the character alone.
#[verifier::external_body]
fn push_lower(buf: &mut Vec<char>, c: char)
    ensures
        final(buf)@ == old(buf)@ + spec_lower(c),
{
    buf.extend(c.to_lowercase());
}

/// Relies on String's FromIterator: collecting characters yields the
/// string of exactly those characters.
#[verifier::external_body]
fn string_from_chars(v: &Vec<char>) -> (s: String)
    ensures
        s@ == v@,
{
    v.iter().collect()
}

// ---------------------------------------------------------------------------
// Character classes the grammar reads directly.
// ---------------------------------------------------------------------------

/// Whether `c` is an ASCII decimal digit.
pub open spec fn is_digit_char(c: char) -> bool {
    48 <= c as u32 && c as u32 <= 57
}

/// The numeric value of an ASCII decimal digit.
pub open spec fn digit_val(c: char) -> int {
    c as u32 - 48
}

fn is_digit(c: char) -> (r: bool)
    ensures
        r == is_digit_char(c),
{
    let u = c as u32;
    48 <= u && u <= 57
}

// ---------------------------------------------------------------------------
// The spec-level lexer.
// ---------------------------------------------------------------------------

/// Advances past whitespace, updating line and column: a newline
/// resets the column and bumps the line, a carriage return changes
/// nothing, and any other whitespace moves the column.  Returns the
/// index, line and column at the first non-whitespace character.
pub open spec fn skip_ws(s: Seq<char>, i: int, line: int, col: int) -> (int, int, int)
    decreases s.len() - i,
{
    if i < s.len() && spec_is_space(s[i]) {
        if s[i] == '\n' {
            skip_ws(s, i + 1, line + 1, 0)
        } else if s[i] == '\r' {
            skip_ws(s, i + 1, line, col)
        } else {
            skip_ws(s, i + 1, line, col + 1)
        }
    } else {
        (i, line, col)
    }
}

/// The index just past the run of digits that starts at `i`.
pub open spec fn digit_run_end(s: Seq<char>, i: int) -> int
    decreases s.len() - i,
{
    if i < s.len() && is_digit_char(s[i]) {
        digit_run_end(s, i + 1)
    } else {
        i
    }
}

/// The index just past the run of alphabetic characters that starts
/// at `i`.
pub open spec fn alpha_run_end(s: Seq<char>, i: int) -> int
    decreases s.len() - i,
{
    if i < s.len() && spec_is_alpha(s[i]) {
        alpha_run_end(s, i + 1)
    } else {
        i
    }
}

/// The numeric value of the digits `s[i..j]`, most significant first.
pub open spec fn digits_val(s: Seq<char>, i: int, j: int) -> int
    decreases j - i,
{
    if i < j {
        digits_val(s, i, j - 1) * 10 + digit_val(s[j - 1])
    } else {
        0
    }
}

/// The characters `s[i..j]`, each replaced by its lowercase mapping.
pub open spec fn folded(s: Seq<char>, i: int, j: int) -> Seq<char>
    decreases j - i,
{
    if i < j {
        folded(s, i, j - 1) + spec_lower(s[j - 1])
    } else {
        Seq::empty()
    }
}

/// Whether `name` is the micro-sign spelling of microseconds: the
/// MICRO SIGN character followed by `s`.
pub open spec fn is_micro_sign_name(name: Seq<char>) -> bool {
    name.len() == 2 && name[0] as u32 == 181 && name[1] == 's'
}

/// The unit a lower-cased run of letters names, if any.  Every unit
/// accepts its abbreviation and its full word, singular and plural.
pub open spec fn unit_of(name: Seq<char>) -> Option<Unit> {
    if name == "ns"@ || name == "nanos"@ || name == "nanoseconds"@ || name == "nanosecond"@ {
        Some(Unit::Nanos)
    } else if is_micro_sign_name(name) || name == "micros"@ || name == "microseconds"@ || name
        == "microsecond"@ {
        Some(Unit::Micros)
    } else if name == "ms"@ || name == "millis"@ || name == "milliseconds"@ || name
        == "millisecond"@ {
        Some(Unit::Millis)
    } else if name == "s"@ || name == "sec"@ || name == "secs"@ || name == "seconds"@ || name
        == "second"@ {
        Some(Unit::Sec)
    } else if name == "m"@ || name == "min"@ || name == "minute"@ || name == "minutes"@ || name
        == "mins"@ {
        Some(Unit::Min)
    } else if name == "h"@ || name == "hr"@ || name == "hours"@ || name == "hour"@ {
        Some(Unit::Hour)
    } else if name == "d"@ || name == "day"@ || name == "days"@ {
        Some(Unit::Day)
    } else if name == "w"@ || name == "week"@ || name == "weeks"@ {
        Some(Unit::Week)
    } else if name == "y"@ || name == "yr"@ || name == "years"@ || name == "year"@ {
        Some(Unit::Year)
    } else {
        None
    }
}

/// Two character sequences that differ at one index differ.
proof fn lemma_seq_ne_at(a: Seq<char>, b: Seq<char>, i: int)
    requires
        0 <= i < a.len(),
        0 <= i < b.len(),
        a[i] != b[i],
    ensures
        a != b,
{
    if a == b {
        assert(a[i] == b[i]);
    }
}

/// The abbreviation, the short word and the full word of each unit,
/// singular and plural, all name the same unit in the table.
#[verifier::rlimit(100)]
pub proof fn lemma_unit_spellings()
    ensures
        unit_of("ns"@) == Some(Unit::Nanos),
        unit_of("nanos"@) == Some(Unit::Nanos),
        unit_of("nanosecond"@) == Some(Unit::Nanos),
        unit_of("nanoseconds"@) == Some(Unit::Nanos),
        unit_of("micros"@) == Some(Unit::Micros),
        unit_of("microsecond"@) == Some(Unit::Micros),
        unit_of("microseconds"@) == Some(Unit::Micros),
        unit_of("ms"@) == Some(Unit::Millis),
        unit_of("millis"@) == Some(Unit::Millis),
        unit_of("millisecond"@) == Some(Unit::Millis),
        unit_of("milliseconds"@) == Some(Unit::Millis),
        unit_of("s"@) == Some(Unit::Sec),
        unit_of("sec"@) == Some(Unit::Sec),
        unit_of("secs"@) == Some(Unit::Sec),
        unit_of("second"@) == Some(Unit::Sec),
        unit_of("seconds"@) == Some(Unit::Sec),
        unit_of("m"@) == Some(Unit::Min),
        unit_of("min"@) == Some(Unit::Min),
        unit_of("mins"@) == Some(Unit::Min),
        unit_of("minute"@) == Some(Unit::Min),
        unit_of("minutes"@) == Some(Unit::Min),
        unit_of("h"@) == Some(Unit::Hour),
        unit_of("hr"@) == Some(Unit::Hour),
        unit_of("hour"@) == Some(Unit::Hour),
        unit_of("hours"@) == Some(Unit::Hour),
        unit_of("d"@) == Some(Unit::Day),
        unit_of("day"@) == Some(Unit::Day),
        unit_of("days"@) == Some(Unit::Day),
        unit_of("w"@) == Some(Unit::Week),
        unit_of("week"@) == Some(Unit::Week),
        unit_of("weeks"@) == Some(Unit::Week),
        unit_of("y"@) == Some(Unit::Year),
        unit_of("yr"@) == Some(Unit::Year),
        unit_of("year"@) == Some(Unit::Year),
        unit_of("years"@) == Some(Unit::Year),
{
    reveal_strlit("ns");
    reveal_strlit("nanos");
    reveal_strlit("nanosecond");
    reveal_strlit("nanoseconds");
    reveal_strlit("micros");
    reveal_strlit("microsecond");
    reveal_strlit("microseconds");
    reveal_strlit("ms");
    reveal_strlit("millis");
    reveal_strlit("millisecond");
    reveal_strlit("milliseconds");
    reveal_strlit("s");
    reveal_strlit("sec");
    reveal_strlit("secs");
    reveal_strlit("second");
    reveal_strlit("seconds");
    reveal_strlit("m");
    reveal_strlit("min");
    reveal_strlit("mins");
    reveal_strlit("minute");
    reveal_strlit("minutes");
    reveal_strlit("h");
    reveal_strlit("hr");
    reveal_strlit("hour");
    reveal_strlit("hours");
    reveal_strlit("d");
    reveal_strlit("day");
    reveal_strlit("days");
    reveal_strlit("w");
    reveal_strlit("week");
    reveal_strlit("weeks");
    reveal_strlit("y");
    reveal_strlit("yr");
    reveal_strlit("year");
    reveal_strlit("years");
    assert("ns"@.len() == 2);
    assert("nanos"@.len() == 5);
    assert("nanosecond"@.len() == 10);
    assert("nanoseconds"@.len() == 11);
    assert("micros"@.len() == 6);
    assert("microsecond"@.len() == 11);
    assert("microseconds"@.len() == 12);
    assert("ms"@.len() == 2);
    assert("millis"@.len() == 6);
    assert("millisecond"@.len() == 11);
    assert("milliseconds"@.len() == 12);
    assert("s"@.len() == 1);
    assert("sec"@.len() == 3);
    assert("secs"@.len() == 4);
    assert("second"@.len() == 6);
    assert("seconds"@.len() == 7);
    assert("m"@.len() == 1);
    assert("min"@.len() == 3);
    assert("mins"@.len() == 4);
    assert("minute"@.len() == 6);
    assert("minutes"@.len() == 7);
    assert("h"@.len() == 1);
    assert("hr"@.len() == 2);
    assert("hour"@.len() == 4);
    assert("hours"@.len() == 5);
    assert("d"@.len() == 1);
    assert("day"@.len() == 3);
    assert("days"@.len() == 4);
    assert("w"@.len() == 1);
    assert("week"@.len() == 4);
    assert("weeks"@.len() == 5);
    assert("y"@.len() == 1);
    assert("yr"@.len() == 2);
    assert("year"@.len() == 4);
    assert("years"@.len() == 5);
    lemma_seq_ne_at("microsecond"@, "nanoseconds"@, 0);
    lemma_seq_ne_at("ms"@, "ns"@, 0);
    lemma_seq_ne_at("millis"@, "micros"@, 2);
    lemma_seq_ne_at("milliseconds"@, "microseconds"@, 2);
    lemma_seq_ne_at("millisecond"@, "nanoseconds"@, 0);
    lemma_seq_ne_at("millisecond"@, "microsecond"@, 2);
    lemma_seq_ne_at("second"@, "micros"@, 0);
    lemma_seq_ne_at("second"@, "millis"@, 0);
    lemma_seq_ne_at("m"@, "s"@, 0);
    lemma_seq_ne_at("min"@, "sec"@, 0);
    lemma_seq_ne_at("minute"@, "micros"@, 2);
    lemma_seq_ne_at("minute"@, "millis"@, 2);
    lemma_seq_ne_at("minute"@, "second"@, 0);
    lemma_seq_ne_at("minutes"@, "seconds"@, 0);
    lemma_seq_ne_at("mins"@, "secs"@, 0);
    lemma_seq_ne_at("h"@, "s"@, 0);
    lemma_seq_ne_at("h"@, "m"@, 0);
    lemma_seq_ne_at("hr"@, "ns"@, 0);
    lemma_seq_ne_at("hr"@, "ms"@, 0);
    lemma_seq_ne_at("hours"@, "nanos"@, 0);
    lemma_seq_ne_at("hour"@, "secs"@, 0);
    lemma_seq_ne_at("hour"@, "mins"@, 0);
    lemma_seq_ne_at("d"@, "s"@, 0);
    lemma_seq_ne_at("d"@, "m"@, 0);
    lemma_seq_ne_at("d"@, "h"@, 0);
    lemma_seq_ne_at("day"@, "sec"@, 0);
    lemma_seq_ne_at("day"@, "min"@, 0);
    lemma_seq_ne_at("days"@, "secs"@, 0);
    lemma_seq_ne_at("days"@, "mins"@, 0);
    lemma_seq_ne_at("days"@, "hour"@, 0);
    lemma_seq_ne_at("w"@, "s"@, 0);
    lemma_seq_ne_at("w"@, "m"@, 0);
    lemma_seq_ne_at("w"@, "h"@, 0);
    lemma_seq_ne_at("w"@, "d"@, 0);
    lemma_seq_ne_at("week"@, "secs"@, 0);
    lemma_seq_ne_at("week"@, "mins"@, 0);
    lemma_seq_ne_at("week"@, "hour"@, 0);
    lemma_seq_ne_at("week"@, "days"@, 0);
    lemma_seq_ne_at("weeks"@, "nanos"@, 0);
    lemma_seq_ne_at("weeks"@, "hours"@, 0);
    lemma_seq_ne_at("y"@, "s"@, 0);
    lemma_seq_ne_at("y"@, "m"@, 0);
    lemma_seq_ne_at("y"@, "h"@, 0);
    lemma_seq_ne_at("y"@, "d"@, 0);
    lemma_seq_ne_at("y"@, "w"@, 0);
    lemma_seq_ne_at("yr"@, "ns"@, 0);
    lemma_seq_ne_at("yr"@, "ms"@, 0);
    lemma_seq_ne_at("yr"@, "hr"@, 0);
    lemma_seq_ne_at("years"@, "nanos"@, 0);
    lemma_seq_ne_at("years"@, "hours"@, 0);
    lemma_seq_ne_at("years"@, "weeks"@, 0);
    lemma_seq_ne_at("year"@, "secs"@, 0);
    lemma_seq_ne_at("year"@, "mins"@, 0);
    lemma_seq_ne_at("year"@, "hour"@, 0);
    lemma_seq_ne_at("year"@, "days"@, 0);
    lemma_seq_ne_at("year"@, "week"@, 0);
}

/// A lexical token, as a mathematical value: the exact integer read,
/// or a unit.
pub ghost enum TokenV {
    Int { v: int },
    Unit { u: Unit },
}

/// The outcome of asking the lexer for one more token: end of input,
/// a lexing failure, or a token with its position and the lexer
/// state just after it.
pub ghost enum NextV {
    End,
    Fail { e: ErrorV },
    Tok { t: TokenV, tline: int, tcol: int, i: int, line: int, col: int },
}

/// One step of the lexer from state `(i, line, col)`: skip
/// whitespace, then read an integer token at a digit, a unit token at
/// an alphabetic character (failing on an unknown unit name), and
/// fail on any other character.
pub open spec fn spec_next(s: Seq<char>, i: int, line: int, col: int) -> NextV {
    let (i1, l1, c1) = skip_ws(s, i, line, col);
    if i1 >= s.len() {
        NextV::End
    } else if is_digit_char(s[i1]) {
        let j = digit_run_end(s, i1);
        NextV::Tok {
            t: TokenV::Int { v: digits_val(s, i1, j) },
            tline: l1,
            tcol: c1,
            i: j,
            line: l1,
            col: c1 + (j - i1),
        }
    } else if spec_is_alpha(s[i1]) {
        let j = alpha_run_end(s, i1);
        let name = folded(s, i1, j);
        match unit_of(name) {
            Some(u) => NextV::Tok {
                t: TokenV::Unit { u },
                tline: l1,
                tcol: c1,
                i: j,
                line: l1,
                col: c1 + (j - i1),
            },
            None => NextV::Fail {
                e: ErrorV { kind: ErrorKindV::UnknownUnit { name }, line: l1, col: c1 },
            },
        }
    } else {
        NextV::Fail {
            e: ErrorV { kind: ErrorKindV::IllegalChar { c: s[i1] }, line: l1, col: c1 },
        }
    }
}

// ---------------------------------------------------------------------------
// Bounds lemmas for the spec-level lexer.
// ---------------------------------------------------------------------------

pub proof fn lemma_skip_ws(s: Seq<char>, i: int, line: int, col: int)
    requires
        0 <= i <= s.len(),
    ensures
        i <= skip_ws(s, i, line, col).0 <= s.len(),
        skip_ws(s, i, line, col).0 < s.len() ==> !spec_is_space(s[skip_ws(s, i, line, col).0]),
    decreases s.len() - i,
{
    if i < s.len() && spec_is_space(s[i]) {
        if s[i] == '\n' {
            lemma_skip_ws(s, i + 1, line + 1, 0);
        } else if s[i] == '\r' {
            lemma_skip_ws(s, i + 1, line, col);
        } else {
            lemma_skip_ws(s, i + 1, line, col + 1);
        }
    }
}

pub proof fn lemma_digit_run_end(s: Seq<char>, i: int)
    requires
        0 <= i <= s.len(),
    ensures
        i <= digit_run_end(s, i) <= s.len(),
        i < s.len() && is_digit_char(s[i]) ==> digit_run_end(s, i) > i,
        forall|k: int| i <= k < digit_run_end(s, i) ==> is_digit_char(s[k]),
    decreases s.len() - i,
{
    if i < s.len() && is_digit_char(s[i]) {
        lemma_digit_run_end(s, i + 1);
    }
}

pub proof fn lemma_alpha_run_end(s: Seq<char>, i: int)
    requires
        0 <= i <= s.len(),
    ensures
        i <= alpha_run_end(s, i) <= s.len(),
        i < s.len() && spec_is_alpha(s[i]) ==> alpha_run_end(s, i) > i,
    decreases s.len() - i,
{
    if i < s.len() && spec_is_alpha(s[i]) {
        lemma_alpha_run_end(s, i + 1);
    }
}

/// When the lexer yields a token, its index strictly advances and
/// stays within the input, and an integer token's value is
/// non-negative.
pub proof fn lemma_spec_next_advances(s: Seq<char>, i: int, line: int, col: int)
    requires
        0 <= i <= s.len(),
    ensures
        spec_next(s, i, line, col) matches NextV::Tok { i: i2, .. } ==> i < i2 <= s.len(),
        spec_next(s, i, line, col) matches NextV::Tok { t: TokenV::Int { v }, .. } ==> v >= 0,
{
    lemma_skip_ws(s, i, line, col);
    let (i1, l1, c1) = skip_ws(s, i, line, col);
    if i1 < s.len() {
        lemma_digit_run_end(s, i1);
        lemma_alpha_run_end(s, i1);
        if is_digit_char(s[i1]) {
            lemma_digits_val_nonneg(s, i1, digit_run_end(s, i1));
        }
    }
}

// ---------------------------------------------------------------------------
// The spec-level parse loop.
// ---------------------------------------------------------------------------

/// The accumulation loop, from lexer state `(i, line, col)` with the
/// exact total `acc` so far: reads an integer and a unit and adds the
/// scaled contribution, treats a bare final integer as seconds, and
/// fails on a unit where an integer was expected or an integer where
/// a unit was expected.
pub open spec fn spec_run(s: Seq<char>, i: int, line: int, col: int, acc: int) -> Result<
    int,
    ErrorV,
>
    decreases s.len() - i,
        when 0 <= i <= s.len()
        via spec_run_dec
{
    match spec_next(s, i, line, col) {
        NextV::End => Ok(acc),
        NextV::Fail { e } => Err(e),
        NextV::Tok { t, tline, tcol, i: i2, line: l2, col: c2 } => match t {
            TokenV::Unit { u } => Err(
                ErrorV {
                    kind: ErrorKindV::UnexpectedToken { expected: "Number"@, got: "Unit"@ },
                    line: tline,
                    col: tcol,
                },
            ),
            TokenV::Int { v } => match spec_next(s, i2, l2, c2) {
                NextV::End => Ok(acc + v * unit_nanos(Unit::Sec)),
                NextV::Fail { e } => Err(e),
                NextV::Tok { t: t2, tline: tl2, tcol: tc2, i: i3, line: l3, col: c3 } => match t2 {
                    TokenV::Unit { u } => spec_run(s, i3, l3, c3, acc + v * unit_nanos(u)),
                    TokenV::Int { v: v2 } => Err(
                        ErrorV {
                            kind: ErrorKindV::UnexpectedToken { expected: "Unit"@, got: "Number"@ },
                            line: tl2,
                            col: tc2,
                        },
                    ),
                },
            },
        },
    }
}

#[via_fn]
proof fn spec_run_dec(s: Seq<char>, i: int, line: int, col: int, acc: int) {
    lemma_spec_next_advances(s, i, line, col);
    match spec_next(s, i, line, col) {
        NextV::Tok { i: i2, line: l2, col: c2, .. } => {
            lemma_spec_next_advances(s, i2, l2, c2);
        },
        _ => {},
    }
}

/// What parsing a whole expression yields, as a mathematical value:
/// the exact nanosecond total (unbounded), or the first failure.  An
/// input with no token at all fails distinctly with `Empty`.
pub open spec fn spec_parse(s: Seq<char>) -> Result<int, ErrorV> {
    if spec_next(s, 0, 0, 0) is End {
        Err(ErrorV { kind: ErrorKindV::Empty, line: 0, col: 0 })
    } else {
        spec_run(s, 0, 0, 0, 0)
    }
}

// ---------------------------------------------------------------------------
// Saturation lemmas: clipping at each step equals clipping the exact
// total once.
// ---------------------------------------------------------------------------

proof fn lemma_clip_mul(v: int, u: int)
    requires
        v >= 0,
        u >= 1,
    ensures
        clip_nanos(clip_nanos(v) * u) == clip_nanos(v * u),
{
    let m = u128::MAX as int;
    if v > m {
        assert(m * u >= m && v * u >= v) by (nonlinear_arith)
            requires
                v >= 0,
                u >= 1,
                m >= 0,
                v > m,
        ;
    } else {
        assert(clip_nanos(v) == v);
    }
}

proof fn lemma_clip_add(a: int, b: int)
    requires
        a >= 0,
        b >= 0,
    ensures
        clip_nanos(clip_nanos(a) + clip_nanos(b)) == clip_nanos(a + b),
{
}

/// One step of saturating decimal accumulation: appending the digit
/// `d` to a value clipped so far yields the clip of the exact value.
proof fn lemma_clip_digit_step(a: int, d: int, va: u128)
    requires
        a >= 0,
        0 <= d <= 9,
        va as int == clip_nanos(a),
    ensures
        va as int <= (u128::MAX as int - d) / 10 ==> va as int * 10 + d <= u128::MAX as int
            && clip_nanos(a * 10 + d) == va as int * 10 + d,
        va as int > (u128::MAX as int - d) / 10 ==> clip_nanos(a * 10 + d) == u128::MAX as int,
{
    let m = u128::MAX as int;
    let lim = (m - d) / 10;
    assert(10 * lim <= m - d < 10 * lim + 10) by (nonlinear_arith)
        requires
            lim == (m - d) / 10,
            m - d >= 0,
    ;
    if va as int <= lim {
        assert(va as int * 10 <= lim * 10) by (nonlinear_arith)
            requires
                va as int <= lim,
        ;
        assert(va < m);
        assert(clip_nanos(a) < m);
        assert(a <= m);
    } else {
        assert(va as int * 10 >= (lim + 1) * 10) by (nonlinear_arith)
            requires
                va as int >= lim + 1,
        ;
        assert(va as int * 10 + d > m);
        if a <= m {
            assert(va as int == a);
        } else {
            assert(va as int == m);
            assert(a * 10 + d >= a) by (nonlinear_arith)
                requires
                    a >= 0,
                    d >= 0,
            ;
        }
    }
}

// ---------------------------------------------------------------------------
// The executable lexer.
// ---------------------------------------------------------------------------

/// A lexical token: an integer (clipped at `u128::MAX`) or a unit.
pub enum Token {
    Unit(Unit),
    Int(u128),
}

/// Whether the executable token carries the mathematical token: unit
/// tokens agree exactly, integer tokens carry the clipped value.
pub open spec fn token_carries(tok: Token, t: TokenV) -> bool {
    match t {
        TokenV::Int { v } => tok matches Token::Int(n) && n as int == clip_nanos(v),
        TokenV::Unit { u } => tok matches Token::Unit(w) && w == u,
    }
}

impl Token {
    /// The token-kind label used in diagnostics.
    pub fn kind(&self) -> (r: &'static str)
        ensures
            (self matches Token::Unit(_) ==> r@ == "Unit"@) && (self matches Token::Int(_) ==> r@
                == "Number"@),
    {
        match self {
            Token::Unit(_) => "Unit",
            Token::Int(_) => "Number",
        }
    }
}

/// A token with its 0-based (line, column) position, or a lexing
/// failure.
pub type TokenResult = Result<(Token, (usize, usize)), Error>;

/// The lexer: a cursor into the characters of the input, tracking a
/// 0-based line and column for diagnostics.
pub struct Parser<'a> {
    s: &'a str,
    n: usize,
    i: usize,
    line: usize,
    col: usize,
}

impl<'a> Parser<'a> {
    /// The cursor stays within the input, and the tracked position
    /// never outruns the characters consumed.
    pub closed spec fn wf(&self) -> bool {
        &&& self.n == self.s@.len()
        &&& self.i <= self.n
        &&& self.line <= self.i
        &&& self.col <= self.i
    }

    /// The input this lexer reads.
    pub closed spec fn src(&self) -> Seq<char> {
        self.s@
    }

    /// The current cursor state, for relating to the spec-level
    /// lexer.
    pub closed spec fn at(&self) -> (int, int, int) {
        (self.i as int, self.line as int, self.col as int)
    }

    /// A lexer at the start of `s`.
    pub fn new(s: &'a str) -> (p: Parser<'a>)
        ensures
            p.wf(),
            p.src() == s@,
            p.at() == (0int, 0int, 0int),
    {
        let n = s.unicode_len();
        Parser { s, n, i: 0, line: 0, col: 0 }
    }

    /// Reads the integer token that starts at the cursor: the run of
    /// contiguous digits, valued with saturation at `u128::MAX`.
    fn parse_int(&mut self) -> (r: TokenResult)
        requires
            old(self).wf(),
            old(self).i < old(self).n,
            is_digit_char(old(self).src()[old(self).i as int]),
        ensures
            final(self).wf(),
            final(self).s == old(self).s,
            final(self).i as int == digit_run_end(old(self).src(), old(self).i as int),
            final(self).line == old(self).line,
            final(self).col as int == old(self).col + (final(self).i - old(self).i),
            r matches Ok(tp) && token_carries(
                tp.0,
                TokenV::Int {
                    v: digits_val(
                        old(self).src(),
                        old(self).i as int,
                        digit_run_end(old(self).src(), old(self).i as int),
                    ),
                },
            ) && tp.1.0 == old(self).line && tp.1.1 == old(self).col,
    {
        let ghost s0 = self.s@;
        let ghost i0 = self.i as int;
        let col0 = self.col;
        let line0 = self.line;
        let mut v: u128 = 0;
        while self.i < self.n && is_digit(self.s.get_char(self.i))
            invariant
                self.wf(),
                self.s == old(self).s,
                self.s@ == s0,
                self.line == line0,
                i0 <= self.i as int,
                self.col as int == col0 + (self.i as int - i0),
                digit_run_end(s0, self.i as int) == digit_run_end(s0, i0),
                forall|k: int| i0 <= k < self.i as int ==> is_digit_char(s0[k]),
                v as int == clip_nanos(digits_val(s0, i0, self.i as int)),
            decreases self.n - self.i,
        {
            let c = self.s.get_char(self.i);
            let d: u128 = (c as u32 - 48) as u128;
            proof {
                lemma_digits_val_nonneg(s0, i0, self.i as int);
                lemma_clip_digit_step(digits_val(s0, i0, self.i as int), d as int, v);
            }
            let lim: u128 = (u128::MAX - d) / 10;
            v = if v <= lim {
                v * 10 + d
            } else {
                u128::MAX
            };
            self.col = self.col + 1;
            self.i = self.i + 1;
        }
        Ok((Token::Int(v), (line0, col0)))
    }

    /// Reads the unit token that starts at the cursor: the run of
    /// contiguous alphabetic characters, lower-cased and looked up in
    /// the unit table; an unrecognized name fails at the token's
    /// position.
    fn parse_unit(&mut self) -> (r: TokenResult)
        requires
            old(self).wf(),
            old(self).i < old(self).n,
            spec_is_alpha(old(self).src()[old(self).i as int]),
        ensures
            final(self).wf(),
            final(self).s == old(self).s,
            final(self).i as int == alpha_run_end(old(self).src(), old(self).i as int),
            final(self).line == old(self).line,
            final(self).col as int == old(self).col + (final(self).i - old(self).i),
            ({
                let name = folded(
                    old(self).src(),
                    old(self).i as int,
                    alpha_run_end(old(self).src(), old(self).i as int),
                );
                match unit_of(name) {
                    Some(u) => r matches Ok(tp) && token_carries(tp.0, TokenV::Unit { u })
                        && tp.1.0 == old(self).line && tp.1.1 == old(self).col,
                    None => r matches Err(e) && e@ == (ErrorV {
                        kind: ErrorKindV::UnknownUnit { name },
                        line: old(self).line as int,
                        col: old(self).col as int,
                    }),
                }
            }),
    {
        let ghost s0 = self.s@;
        let ghost i0 = self.i as int;
        let col0 = self.col;
        let line0 = self.line;
        let mut buf: Vec<char> = Vec::new();
        while self.i < self.n && is_alpha(self.s.get_char(self.i))
            invariant
                self.wf(),
                self.s == old(self).s,
                self.s@ == s0,
                self.line == line0,
                i0 <= self.i as int,
                self.col as int == col0 + (self.i as int - i0),
                alpha_run_end(s0, self.i as int) == alpha_run_end(s0, i0),
                buf@ == folded(s0, i0, self.i as int),
            decreases self.n - self.i,
        {
            let c = self.s.get_char(self.i);
            push_lower(&mut buf, c);
            self.col = self.col + 1;
            self.i = self.i + 1;
        }
        match unit_of_name(&buf) {
            Some(u) => Ok((Token::Unit(u), (line0, col0))),
            None => Err(Error::unknown_unit(string_from_chars(&buf), (line0, col0))),
        }
    }

    /// Skips whitespace and reads the next token, if any: `None` at
    /// the end of the input, otherwise the token or the lexing
    /// failure, exactly as the spec-level lexer describes.
    pub fn next(&mut self) -> (r: Option<TokenResult>)
        requires
            old(self).wf(),
        ensures
            final(self).wf(),
            final(self).src() == old(self).src(),
            match spec_next(old(self).src(), old(self).at().0, old(self).at().1, old(self).at().2) {
                NextV::End => r is None,
                NextV::Fail { e } => r matches Some(Err(err)) && err@ == e,
                NextV::Tok { t, tline, tcol, i, line, col } => {
                    &&& r matches Some(Ok(tp)) && token_carries(tp.0, t) && tp.1.0 == tline
                        && tp.1.1 == tcol
                    &&& final(self).at() == (i, line, col)
                },
            },
    {
        let ghost s0 = self.s@;
        let ghost i0 = self.i as int;
        let ghost l0 = self.line as int;
        let ghost c0 = self.col as int;
        while self.i < self.n && is_space(self.s.get_char(self.i))
            invariant
                self.wf(),
                self.s == old(self).s,
                self.s@ == s0,
                skip_ws(s0, i0, l0, c0) == skip_ws(
                    s0,
                    self.i as int,
                    self.line as int,
                    self.col as int,
                ),
            decreases self.n - self.i,
        {
            let c = self.s.get_char(self.i);
            if c == '\n' {
                self.col = 0;
                self.line = self.line + 1;
            } else if c != '\r' {
                self.col = self.col + 1;
            }
            self.i = self.i + 1;
        }
        proof {
            assert(skip_ws(s0, self.i as int, self.line as int, self.col as int) == (
                self.i as int,
                self.line as int,
                self.col as int,
            ));
        }
        if self.i >= self.n {
            return None;
        }
        let c = self.s.get_char(self.i);
        if is_digit(c) {
            Some(self.parse_int())
        } else if is_alpha(c) {
            Some(self.parse_unit())
        } else {
            Some(Err(Error::illegal(c, (self.line, self.col))))
        }
    }
}

proof fn lemma_digits_val_nonneg(s: Seq<char>, i: int, j: int)
    requires
        forall|k: int| i <= k < j ==> is_digit_char(s[k]),
    ensures
        digits_val(s, i, j) >= 0,
    decreases j - i,
{
    if i < j {
        lemma_digits_val_nonneg(s, i, j - 1);
        let a = digits_val(s, i, j - 1);
        assert(a * 10 >= 0) by (nonlinear_arith)
            requires
                a >= 0,
        ;
    }
}

// ---------------------------------------------------------------------------
// Matching a lower-cased run of letters against the unit table.
// ---------------------------------------------------------------------------

/// Whether the collected characters equal the literal, character for
/// character.
fn chars_match(buf: &Vec<char>, lit: &str) -> (r: bool)
    ensures
        r == (buf@ == lit@),
{
    let n = lit.unicode_len();
    if buf.len() != n {
        return false;
    }
    let mut k: usize = 0;
    while k < n
        invariant
            k <= n,
            n == lit@.len(),
            buf@.len() == n,
            forall|t: int| 0 <= t < k ==> buf@[t] == lit@[t],
        decreases n - k,
    {
        if buf[k] != lit.get_char(k) {
            return false;
        }
        k = k + 1;
    }
    proof {
        assert(buf@ =~= lit@);
    }
    true
}

/// Parses a duration expression: one or more `<integer><unit>` pairs,
/// optionally whitespace-separated, accumulated by addition with
/// saturation; a bare final integer counts as seconds.  Returns
/// exactly what the spec-level grammar assigns to the input: its
/// clipped nanosecond total, or its first failure with the failure's
/// 0-based line and column.
pub fn parse(s: &str) -> (r: Result<Duration, Error>)
    ensures
        match spec_parse(s@) {
            Ok(total) => r matches Ok(d) && d@ == clip_nanos(total),
            Err(e) => r matches Err(err) && err@ == e,
        },
{
    let mut not_empty = false;
    let mut p = Parser::new(s);
    let mut t = Duration::zero();
    let ghost mut acc: int = 0;
    loop
        invariant
            p.wf(),
            p.src() == s@,
            0 <= p.at().0 <= s@.len(),
            acc >= 0,
            t@ == clip_nanos(acc),
            spec_run(s@, p.at().0, p.at().1, p.at().2, acc) == spec_run(s@, 0, 0, 0, 0),
            not_empty ==> !(spec_next(s@, 0, 0, 0) is End),
            !not_empty ==> p.at() == (0int, 0int, 0int) && acc == 0,
        decreases s@.len() - p.at().0,
    {
        let ghost ia = p.at().0;
        let ghost la = p.at().1;
        let ghost ca = p.at().2;
        let ghost acc0 = acc;
        proof {
            lemma_spec_next_advances(s@, ia, la, ca);
        }
        let ghost nv = spec_next(s@, ia, la, ca);
        match p.next() {
            None => {
                if not_empty {
                    return Ok(t);
                } else {
                    return Err(Error::empty());
                }
            },
            Some(res) => {
                not_empty = true;
                let (token, pos) = match res {
                    Ok(tp) => tp,
                    Err(e) => {
                        return Err(e);
                    },
                };
                match token {
                    Token::Unit(_) => {
                        return Err(Error::unexpected_token("Number", token.kind(), pos));
                    },
                    Token::Int(n) => {
                        let ghost v = (match nv {
                            NextV::Tok { t: TokenV::Int { v }, .. } => v,
                            _ => 0int,
                        });
                        let ghost ib = p.at().0;
                        let ghost lb = p.at().1;
                        let ghost cb = p.at().2;
                        proof {
                            lemma_spec_next_advances(s@, ib, lb, cb);
                        }
                        match p.next() {
                            None => {
                                let d = Unit::Sec.duration(n);
                                proof {
                                    lemma_clip_mul(v, unit_nanos(Unit::Sec));
                                    assert(v * unit_nanos(Unit::Sec) >= 0) by (nonlinear_arith)
                                        requires
                                            v >= 0,
                                    ;
                                    lemma_clip_add(acc, v * unit_nanos(Unit::Sec));
                                    acc = acc + v * unit_nanos(Unit::Sec);
                                }
                                t = t.saturating_add(d);
                                proof {
                                    assert(spec_run(s@, ia, la, ca, acc0) == Ok::<int, ErrorV>(
                                        acc,
                                    ));
                                }
                                return Ok(t);
                            },
                            Some(res2) => {
                                let (tok2, pos2) = match res2 {
                                    Ok(tp) => tp,
                                    Err(e) => {
                                        return Err(e);
                                    },
                                };
                                match tok2 {
                                    Token::Unit(u) => {
                                        let d = u.duration(n);
                                        proof {
                                            lemma_clip_mul(v, unit_nanos(u));
                                            assert(v * unit_nanos(u) >= 0) by (nonlinear_arith)
                                                requires
                                                    v >= 0,
                                                    unit_nanos(u) >= 1,
                                            ;
                                            lemma_clip_add(acc, v * unit_nanos(u));
                                            acc = acc + v * unit_nanos(u);
                                        }
                                        t = t.saturating_add(d);
                                    },
                                    Token::Int(_) => {
                                        return Err(
                                            Error::unexpected_token("Unit", tok2.kind(), pos2),
                                        );
                                    },
                                }
                            },
                        }
                    },
                }
            },
        }
    }
}

fn unit_of_name(buf: &Vec<char>) -> (r: Option<Unit>)
    ensures
        r == unit_of(buf@),
{
    let micro_sign = buf.len() == 2 && buf[0] as u32 == 181 && buf[1] == 's';
    proof {
        assert(micro_sign == is_micro_sign_name(buf@));
    }
    if chars_match(buf, "ns") || chars_match(buf, "nanos") || chars_match(buf, "nanoseconds")
        || chars_match(buf, "nanosecond") {
        Some(Unit::Nanos)
    } else if micro_sign || chars_match(buf, "micros") || chars_match(buf, "microseconds")
        || chars_match(buf, "microsecond") {
        Some(Unit::Micros)
    } else if chars_match(buf, "ms") || chars_match(buf, "millis") || chars_match(
        buf,
        "milliseconds",
    ) || chars_match(buf, "millisecond") {
        Some(Unit::Millis)
    } else if chars_match(buf, "s") || chars_match(buf, "sec") || chars_match(buf, "secs")
        || chars_match(buf, "seconds") || chars_match(buf, "second") {
        Some(Unit::Sec)
    } else if chars_match(buf, "m") || chars_match(buf, "min") || chars_match(buf, "minute")
        || chars_match(buf, "minutes") || chars_match(buf, "mins") {
        Some(Unit::Min)
    } else if chars_match(buf, "h") || chars_match(buf, "hr") || chars_match(buf, "hours")
        || chars_match(buf, "hour") {
        Some(Unit::Hour)
    } else if chars_match(buf, "d") || chars_match(buf, "day") || chars_match(buf, "days") {
        Some(Unit::Day)
    } else if chars_match(buf, "w") || chars_match(buf, "week") || chars_match(buf, "weeks") {
        Some(Unit::Week)
    } else if chars_match(buf, "y") || chars_match(buf, "yr") || chars_match(buf, "years")
        || chars_match(buf, "year") {
        Some(Unit::Year)
    } else {
        None
    }
}

} // verus!
