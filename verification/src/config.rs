//! Session configuration and command-line argument parsing.
//!
//! A [`Config`] holds the warmup, work and rest durations in whole seconds,
//! the round count, and the one-shot flag. [`Config::build`] parses the
//! positional arguments `<get_ready> <first> <second> <rounds> <one_shot>`
//! (after the program name) into a `Config`, trimming surrounding blanks
//! from each argument first.

use vstd::prelude::*;

verus! {

/// Error produced when the command-line arguments cannot be parsed.
#[derive(Debug)]
pub struct ArgParseError {
    pub msg: String,
}

/// The immutable session configuration: durations in whole seconds,
/// a round count, and the one-shot flag.
#[derive(Debug, Clone, Copy)]
pub struct Config {
    /// Warmup duration in seconds.
    pub get_ready: u32,
    /// Work duration in seconds (per round).
    pub first: u32,
    /// Rest duration in seconds (per round).
    pub second: u32,
    /// Number of Work/Rest rounds; at least 1 for a useful session.
    pub rounds: u16,
    /// When set, the session runs exactly one round regardless of `rounds`.
    pub one_shot: bool,
}

/// A decimal digit character.
pub open spec fn is_digit(c: char) -> bool {
    '0' <= c && c <= '9'
}

/// Numeric value of a digit character.
pub open spec fn digit_val(c: char) -> int {
    c as int - 48
}

/// Every character of `s` is a decimal digit.
pub open spec fn all_digits(s: Seq<char>) -> bool {
    forall|i: int| 0 <= i < s.len() ==> is_digit(#[trigger] s[i])
}

/// The number denoted by a string of decimal digits, most significant first.
pub open spec fn digits_val(s: Seq<char>) -> int
    decreases s.len(),
{
    if s.len() == 0 {
        0
    } else {
        digits_val(s.drop_last()) * 10 + digit_val(s.last())
    }
}

/// `s` is a well-formed unsigned decimal numeral whose value is at most `max`.
pub open spec fn parse_uint_ok(s: Seq<char>, max: int) -> bool {
    s.len() > 0 && all_digits(s) && digits_val(s) <= max
}

/// Blank characters removed by [`trim_blanks`].
pub open spec fn is_blank(c: char) -> bool {
    c == ' ' || c == '\t' || c == '\n' || c == '\r'
}

/// `s` without its leading blanks.
pub open spec fn trim_front(s: Seq<char>) -> Seq<char>
    decreases s.len(),
{
    if s.len() > 0 && is_blank(s[0]) {
        trim_front(s.subrange(1, s.len() as int))
    } else {
        s
    }
}

/// `s` without its trailing blanks.
pub open spec fn trim_back(s: Seq<char>) -> Seq<char>
    decreases s.len(),
{
    if s.len() > 0 && is_blank(s.last()) {
        trim_back(s.drop_last())
    } else {
        s
    }
}

/// `s` without leading and trailing blanks.
pub open spec fn trim_spec(s: Seq<char>) -> Seq<char> {
    trim_back(trim_front(s))
}

proof fn lemma_digits_nonneg(s: Seq<char>)
    requires
        all_digits(s),
    ensures
        digits_val(s) >= 0,
    decreases s.len(),
{
    if s.len() > 0 {
        assert(forall|i: int| 0 <= i < s.drop_last().len() ==> is_digit(#[trigger] s.drop_last()[i]));
        lemma_digits_nonneg(s.drop_last());
    }
}

/// Appending digits never decreases the denoted value.
proof fn lemma_digits_prefix_le(s: Seq<char>, i: int, j: int)
    requires
        all_digits(s),
        0 <= i <= j <= s.len(),
    ensures
        digits_val(s.take(i)) <= digits_val(s.take(j)),
    decreases j - i,
{
    if i < j {
        lemma_digits_prefix_le(s, i, j - 1);
        let t = s.take(j);
        assert(t.drop_last() =~= s.take(j - 1));
        assert(forall|k: int| 0 <= k < s.take(j - 1).len() ==> is_digit(#[trigger] s.take(j - 1)[k]));
        lemma_digits_nonneg(s.take(j - 1));
        assert(digits_val(t) == digits_val(s.take(j - 1)) * 10 + digit_val(t.last()));
        assert(digits_val(s.take(j - 1)) * 10 >= digits_val(s.take(j - 1)));
        assert(is_digit(s[j - 1]));
    }
}

/// Parse `s` as an unsigned decimal numeral of value at most `max`.
///
/// Returns `Some` exactly on well-formed numerals in range, and then the
/// denoted value.
pub fn parse_uint(s: &str, max: u32) -> (r: Option<u32>)
    ensures
        r is Some <==> parse_uint_ok(s@, max as int),
        r is Some ==> r->0 as int == digits_val(s@),
{
    let n = s.unicode_len();
    if n == 0 {
        return None;
    }
    let mut acc: u64 = 0;
    let mut i: usize = 0;
    while i < n
        invariant
            0 < n == s@.len(),
            0 <= i <= n,
            all_digits(s@.take(i as int)),
            acc as int == digits_val(s@.take(i as int)),
            acc <= max,
        decreases n - i,
    {
        let c = s.get_char(i);
        if c < '0' || c > '9' {
            assert(!is_digit(s@[i as int]));
            return None;
        }
        assert(is_digit(s@[i as int]));
        let d: u64 = (c as u32 - 48) as u64;
        acc = acc * 10 + d;
        proof {
            let t = s@.take(i + 1);
            assert(t.drop_last() =~= s@.take(i as int));
            assert(t.last() == s@[i as int]);
            assert(forall|k: int| 0 <= k < t.len() ==> is_digit(#[trigger] t[k]));
        }
        i = i + 1;
        if acc > max as u64 {
            proof {
                if all_digits(s@) {
                    lemma_digits_prefix_le(s@, i as int, n as int);
                    assert(s@.take(n as int) =~= s@);
                }
            }
            return None;
        }
    }
    proof {
        assert(s@.take(n as int) =~= s@);
    }
    Some(acc as u32)
}

/// Executable test for a blank character.
pub fn is_blank_char(c: char) -> (r: bool)
    ensures
        r == is_blank(c),
{
    c == ' ' || c == '\t' || c == '\n' || c == '\r'
}

/// Remove leading and trailing blanks (space, tab, newline, carriage return).
pub fn trim_blanks(s: &str) -> (r: &str)
    ensures
        r@ == trim_spec(s@),
{
    let n = s.unicode_len();
    proof {
        assert(s@.subrange(0, n as int) =~= s@);
    }
    let mut start: usize = 0;
    while start < n && is_blank_char(s.get_char(start))
        invariant
            0 <= start <= n == s@.len(),
            trim_front(s@) == trim_front(s@.subrange(start as int, n as int)),
        decreases n - start,
    {
        proof {
            let t = s@.subrange(start as int, n as int);
            assert(t.len() > 0 && is_blank(t[0]));
            assert(t.subrange(1, t.len() as int) =~= s@.subrange(start + 1, n as int));
        }
        start = start + 1;
    }
    proof {
        let t = s@.subrange(start as int, n as int);
        assert(t.len() == 0 || !is_blank(t[0]));
        assert(trim_front(s@) == t);
    }
    let mut end: usize = n;
    while end > start && is_blank_char(s.get_char(end - 1))
        invariant
            0 <= start <= end <= n == s@.len(),
            trim_front(s@) == s@.subrange(start as int, n as int),
            trim_back(s@.subrange(start as int, n as int)) == trim_back(
                s@.subrange(start as int, end as int),
            ),
        decreases end,
    {
        proof {
            let t = s@.subrange(start as int, end as int);
            assert(t.len() > 0 && is_blank(t.last()));
            assert(t.drop_last() =~= s@.subrange(start as int, end - 1));
        }
        end = end - 1;
    }
    proof {
        let t = s@.subrange(start as int, end as int);
        assert(t.len() == 0 || !is_blank(t.last()));
        assert(trim_back(t) == t);
    }
    s.substring_char(start, end)
}

/// Spec-level meaning of [`parse_bool`].
pub open spec fn bool_of_chars(s: Seq<char>) -> Option<bool> {
    if s == seq!['t', 'r', 'u', 'e'] {
        Some(true)
    } else if s == seq!['f', 'a', 'l', 's', 'e'] {
        Some(false)
    } else {
        None
    }
}

/// Parse `"true"` or `"false"`; anything else is rejected.
pub fn parse_bool(s: &str) -> (r: Option<bool>)
    ensures
        r == bool_of_chars(s@),
{
    let n = s.unicode_len();
    if n == 4 && s.get_char(0) == 't' && s.get_char(1) == 'r' && s.get_char(2) == 'u'
        && s.get_char(3) == 'e' {
        proof {
            assert(s@ =~= seq!['t', 'r', 'u', 'e']);
        }
        Some(true)
    } else if n == 5 && s.get_char(0) == 'f' && s.get_char(1) == 'a' && s.get_char(2) == 'l'
        && s.get_char(3) == 's' && s.get_char(4) == 'e' {
        proof {
            assert(s@ =~= seq!['f', 'a', 'l', 's', 'e']);
        }
        Some(false)
    } else {
        proof {
            if s@ == seq!['t', 'r', 'u', 'e'] {
                assert(s@.len() == 4);
                assert(s@[0] == 't' && s@[1] == 'r' && s@[2] == 'u' && s@[3] == 'e');
            }
            if s@ == seq!['f', 'a', 'l', 's', 'e'] {
                assert(s@.len() == 5);
                assert(s@[0] == 'f' && s@[1] == 'a' && s@[2] == 'l' && s@[3] == 's' && s@[4]
                    == 'e');
            }
        }
        None
    }
}

/// The five positional arguments (after the program name) all parse, each
/// after trimming blanks: three `u32` durations, a positive `u16` round
/// count, and a boolean one-shot flag.
pub open spec fn build_ok(args: Seq<Seq<char>>) -> bool {
    &&& args.len() >= 6
    &&& parse_uint_ok(trim_spec(args[1]), u32::MAX as int)
    &&& parse_uint_ok(trim_spec(args[2]), u32::MAX as int)
    &&& parse_uint_ok(trim_spec(args[3]), u32::MAX as int)
    &&& parse_uint_ok(trim_spec(args[4]), u16::MAX as int)
    &&& digits_val(trim_spec(args[4])) >= 1
    &&& bool_of_chars(trim_spec(args[5])) is Some
}

/// The views of a slice of argument strings.
pub open spec fn arg_views(args: Seq<String>) -> Seq<Seq<char>> {
    args.map_values(|a: String| a@)
}

impl Config {
    /// Parse the command line `args` (including the program name at index 0)
    /// into a `Config`.
    ///
    /// Succeeds exactly when at least five arguments follow the program name
    /// and each of the first five parses, after trimming blanks, as the
    /// required type; the parsed values are returned field by field.
    pub fn build(args: &[String]) -> (r: Result<Config, ArgParseError>)
        ensures
            r is Ok <==> build_ok(arg_views(args@)),
            r is Ok ==> {
                let c = r->Ok_0;
                &&& c.get_ready as int == digits_val(trim_spec(args@[1]@))
                &&& c.first as int == digits_val(trim_spec(args@[2]@))
                &&& c.second as int == digits_val(trim_spec(args@[3]@))
                &&& c.rounds as int == digits_val(trim_spec(args@[4]@))
                &&& Some(c.one_shot) == bool_of_chars(trim_spec(args@[5]@))
            },
    {
        if args.len() < 6 {
            return Err(ArgParseError { msg: "not enough arguments".to_owned() });
        }
        let get_ready = match parse_uint(trim_blanks(args[1].as_str()), u32::MAX) {
            Some(v) => v,
            None => {
                return Err(ArgParseError { msg: "invalid get_ready seconds".to_owned() });
            },
        };
        let first = match parse_uint(trim_blanks(args[2].as_str()), u32::MAX) {
            Some(v) => v,
            None => {
                return Err(ArgParseError { msg: "invalid first timer seconds".to_owned() });
            },
        };
        let second = match parse_uint(trim_blanks(args[3].as_str()), u32::MAX) {
            Some(v) => v,
            None => {
                return Err(ArgParseError { msg: "invalid second timer seconds".to_owned() });
            },
        };
        let rounds_32 = match parse_uint(trim_blanks(args[4].as_str()), u16::MAX as u32) {
            Some(v) => v,
            None => {
                return Err(ArgParseError { msg: "invalid rounds".to_owned() });
            },
        };
        if rounds_32 == 0 {
            return Err(ArgParseError { msg: "rounds must be at least 1".to_owned() });
        }
        let one_shot = match parse_bool(trim_blanks(args[5].as_str())) {
            Some(v) => v,
            None => {
                return Err(ArgParseError { msg: "invalid one_shot flag".to_owned() });
            },
        };
        Ok(Config { get_ready, first, second, rounds: rounds_32 as u16, one_shot })
    }
}

} // verus!
