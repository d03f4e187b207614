//! Session configuration: the options recognized on the command line,
//! parsed from a plain argument vector.
//!
//! Recognized options: `-t <secs>` (time limit, default 1200), `-w <n>`
//! (word count, default 25), `-q` (quotes instead of words), `-d`
//! (restart the test on every mistake). A flag whose value is missing
//! or not a decimal number is a fatal configuration error.

use vstd::prelude::*;

verus! {

/// `c` is a decimal digit.
pub open spec fn is_digit(c: char) -> bool {
    '0' as u32 <= c as u32 <= '9' as u32
}

/// Numeric value of the digit `c`.
pub open spec fn digit_val(c: char) -> int {
    c as u32 - '0' as u32
}

/// Every character of `s` is a decimal digit.
pub open spec fn all_digits(s: Seq<char>) -> bool {
    forall|i: int| 0 <= i < s.len() ==> is_digit(#[trigger] s[i])
}

/// The number that the digit string `s` denotes, most significant first.
pub open spec fn dec_val(s: Seq<char>) -> int
    decreases s.len(),
{
    if s.len() == 0 {
        0
    } else {
        dec_val(s.drop_last()) * 10 + digit_val(s.last())
    }
}

/// A digit string denotes a non-negative number.
pub proof fn lemma_dec_val_nonneg(s: Seq<char>)
    requires
        all_digits(s),
    ensures
        dec_val(s) >= 0,
    decreases s.len(),
{
    if s.len() > 0 {
        assert(all_digits(s.drop_last()));
        lemma_dec_val_nonneg(s.drop_last());
    }
}

/// Dropping trailing digits never increases the denoted number.
pub proof fn lemma_dec_val_prefix_le(s: Seq<char>, i: int)
    requires
        all_digits(s),
        0 <= i <= s.len(),
    ensures
        dec_val(s.take(i)) <= dec_val(s),
    decreases s.len() - i,
{
    if i == s.len() {
        assert(s.take(i) =~= s);
    } else {
        assert(s.take(i + 1).drop_last() =~= s.take(i));
        assert(all_digits(s.take(i)));
        lemma_dec_val_nonneg(s.take(i));
        lemma_dec_val_prefix_le(s, i + 1);
    }
}

/// Reads a decimal `u64`. Answers a value exactly when the string is a
/// non-empty run of digits whose value fits.
pub fn parse_u64(s: &String) -> (r: Option<u64>)
    ensures
        r is Some <==> (s@.len() > 0 && all_digits(s@) && dec_val(s@) <= u64::MAX),
        r is Some ==> r->0 == dec_val(s@),
{
    let n = s.as_str().unicode_len();
    if n == 0 {
        return None;
    }
    let mut acc: u64 = 0;
    let mut i: usize = 0;
    while i < n
        invariant
            0 <= i <= n,
            n == s@.len(),
            all_digits(s@.take(i as int)),
            acc == dec_val(s@.take(i as int)),
        decreases n - i,
    {
        let c = s.as_str().get_char(i);
        let v = c as u32;
        if v < 48 || v > 57 {
            assert(!is_digit(s@[i as int]));
            return None;
        }
        let d = (v - 48) as u64;
        assert(s@.take(i + 1).drop_last() =~= s@.take(i as int));
        assert(s@.take(i + 1).last() == s@[i as int]);
        let shifted = match acc.checked_mul(10) {
            Some(x) => x,
            None => {
                proof {
                    if all_digits(s@) {
                        lemma_dec_val_nonneg(s@.take(i as int));
                        lemma_dec_val_prefix_le(s@, i + 1);
                    }
                }
                return None;
            },
        };
        acc = match shifted.checked_add(d) {
            Some(x) => x,
            None => {
                proof {
                    if all_digits(s@) {
                        lemma_dec_val_nonneg(s@.take(i as int));
                        lemma_dec_val_prefix_le(s@, i + 1);
                    }
                }
                return None;
            },
        };
        i = i + 1;
    }
    assert(s@.take(n as int) =~= s@);
    Some(acc)
}

/// Index of the first argument equal to `flag`, or the argument count
/// when none is.
pub open spec fn flag_pos(args: Seq<String>, flag: Seq<char>) -> int
    decreases args.len(),
{
    if args.len() == 0 {
        0
    } else if args[0]@ == flag {
        0
    } else {
        1 + flag_pos(args.drop_first(), flag)
    }
}

/// Some argument equals `flag`.
pub open spec fn has_flag(args: Seq<String>, flag: Seq<char>) -> bool {
    flag_pos(args, flag) < args.len()
}

/// What `flag_pos` finds: an in-range index of a match that nothing
/// earlier matches, or the argument count.
pub proof fn lemma_flag_pos(args: Seq<String>, flag: Seq<char>)
    ensures
        0 <= flag_pos(args, flag) <= args.len(),
        flag_pos(args, flag) < args.len() ==> args[flag_pos(args, flag)]@ == flag,
        forall|j: int| 0 <= j < flag_pos(args, flag) ==> args[j]@ != flag,
    decreases args.len(),
{
    if args.len() > 0 && args[0]@ != flag {
        lemma_flag_pos(args.drop_first(), flag);
        assert forall|j: int| 0 <= j < flag_pos(args, flag) implies args[j]@ != flag by {
            if j > 0 {
                assert(args.drop_first()[j - 1] == args[j]);
            }
        }
    }
}

/// Finds the first argument equal to `pat`.
fn find_flag(args: &Vec<String>, pat: &str) -> (r: Option<usize>)
    ensures
        match r {
            Some(i) => i == flag_pos(args@, pat@) && i < args@.len(),
            None => !has_flag(args@, pat@),
        },
{
    proof {
        lemma_flag_pos(args@, pat@);
    }
    let needle: String = pat.to_owned();
    let mut i: usize = 0;
    while i < args.len()
        invariant
            0 <= i <= args@.len(),
            needle@ == pat@,
            forall|j: int| 0 <= j < i ==> args@[j]@ != pat@,
            0 <= flag_pos(args@, pat@) <= args@.len(),
            flag_pos(args@, pat@) < args@.len() ==> args@[flag_pos(args@, pat@)]@ == pat@,
            forall|j: int| 0 <= j < flag_pos(args@, pat@) ==> args@[j]@ != pat@,
        decreases args.len() - i,
    {
        if args[i].eq(&needle) {
            proof {
                let fp = flag_pos(args@, pat@);
                if fp < i as int {
                    assert(args@[fp]@ != pat@);
                    assert(false);
                } else if fp > i as int {
                    assert(args@[i as int]@ != pat@);
                    assert(false);
                }
            }
            return Some(i);
        }
        i = i + 1;
    }
    None
}

/// Why the argument vector could not be read.
#[derive(Clone, Copy, Debug, PartialEq, Eq)]
pub enum ConfigError {
    /// `-t` is the last argument: its value is missing.
    MissingTimeValue,
    /// The value after `-t` is not a decimal number of seconds.
    InvalidTimeValue,
    /// `-w` is the last argument: its value is missing.
    MissingWordCountValue,
    /// The value after `-w` is not a decimal word count.
    InvalidWordCountValue,
}

impl ConfigError {
    /// The message shown to the user for this error.
    pub fn message(&self) -> (r: String)
        ensures
            *self is MissingTimeValue ==> r@ == "add time after -t in secs (e.g: -t 30)"@,
            *self is InvalidTimeValue ==> r@
                == "incorrect duration: add time after -t in secs (e.g: -t 30)"@,
            *self is MissingWordCountValue ==> r@ == "add number after -w (e.g: -w 30)"@,
            *self is InvalidWordCountValue ==> r@
                == "incorrect number: add number after -w (e.g: -w 30)"@,
    {
        match self {
            ConfigError::MissingTimeValue => "add time after -t in secs (e.g: -t 30)".to_owned(),
            ConfigError::InvalidTimeValue => "incorrect duration: add time after -t in secs (e.g: -t 30)".to_owned(),
            ConfigError::MissingWordCountValue => "add number after -w (e.g: -w 30)".to_owned(),
            ConfigError::InvalidWordCountValue => "incorrect number: add number after -w (e.g: -w 30)".to_owned(),
        }
    }
}

/// The options a session runs under, fixed before the session starts.
#[derive(Clone, Copy, Debug)]
pub struct SessionConfig {
    /// Time limit in seconds.
    pub duration_secs: u64,
    /// The time limit came from `-t` rather than the default.
    pub explicit_duration: bool,
    /// How many words a generated passage holds.
    pub word_count: u64,
    /// The passage is a quote rather than shuffled words.
    pub quote_mode: bool,
    /// A scored mistake restarts the test.
    pub restart_on_mistake: bool,
}

/// The value argument following the flag at `p`, as a digit string, if
/// it is there and in range.
pub open spec fn flag_value_ok(args: Seq<String>, p: int) -> bool {
    p + 1 < args.len() && args[p + 1]@.len() > 0 && all_digits(args[p + 1]@) && dec_val(
        args[p + 1]@,
    ) <= u64::MAX
}

impl SessionConfig {
    /// Reads the recognized options out of an argument vector; the
    /// first `-t` and the first `-w` carry the values.
    pub fn from_args(args: &Vec<String>) -> (r: Result<SessionConfig, ConfigError>)
        ensures
            match r {
                Ok(c) => {
                    &&& (if has_flag(args@, "-t"@) {
                        &&& flag_value_ok(args@, flag_pos(args@, "-t"@))
                        &&& c.duration_secs == dec_val(args@[flag_pos(args@, "-t"@) + 1]@)
                        &&& c.explicit_duration
                    } else {
                        c.duration_secs == 1200 && !c.explicit_duration
                    })
                    &&& (if has_flag(args@, "-w"@) {
                        &&& flag_value_ok(args@, flag_pos(args@, "-w"@))
                        &&& c.word_count == dec_val(args@[flag_pos(args@, "-w"@) + 1]@)
                    } else {
                        c.word_count == 25
                    })
                    &&& c.quote_mode == has_flag(args@, "-q"@)
                    &&& c.restart_on_mistake == has_flag(args@, "-d"@)
                },
                Err(e) => {
                    &&& (e is MissingTimeValue <==> (has_flag(args@, "-t"@) && flag_pos(
                        args@,
                        "-t"@,
                    ) + 1 >= args@.len()))
                    &&& (e is InvalidTimeValue <==> (has_flag(args@, "-t"@) && flag_pos(
                        args@,
                        "-t"@,
                    ) + 1 < args@.len() && !flag_value_ok(args@, flag_pos(args@, "-t"@))))
                    &&& (e is MissingWordCountValue ==> (has_flag(args@, "-w"@) && flag_pos(
                        args@,
                        "-w"@,
                    ) + 1 >= args@.len()))
                    &&& (e is InvalidWordCountValue ==> (has_flag(args@, "-w"@) && flag_pos(
                        args@,
                        "-w"@,
                    ) + 1 < args@.len() && !flag_value_ok(args@, flag_pos(args@, "-w"@))))
                },
            },
    {
        let mut duration_secs: u64 = 1200;
        let mut explicit_duration = false;
        if let Some(p) = find_flag(args, "-t") {
            let n = args.len();
            if p + 1 >= n {
                return Err(ConfigError::MissingTimeValue);
            }
            match parse_u64(&args[p + 1]) {
                Some(v) => {
                    duration_secs = v;
                    explicit_duration = true;
                },
                None => {
                    return Err(ConfigError::InvalidTimeValue);
                },
            }
        }
        let mut word_count: u64 = 25;
        if let Some(p) = find_flag(args, "-w") {
            let n = args.len();
            if p + 1 >= n {
                return Err(ConfigError::MissingWordCountValue);
            }
            match parse_u64(&args[p + 1]) {
                Some(v) => {
                    word_count = v;
                },
                None => {
                    return Err(ConfigError::InvalidWordCountValue);
                },
            }
        }
        let quote_mode = find_flag(args, "-q").is_some();
        let restart_on_mistake = find_flag(args, "-d").is_some();
        Ok(
            SessionConfig {
                duration_secs,
                explicit_duration,
                word_count,
                quote_mode,
                restart_on_mistake,
            },
        )
    }
}

} // verus!
