//! Configuration records and the retention-window parser.
//!
//! The retention window ("auto delete time") is written as a decimal count
//! followed by a one-letter unit: `d`ays, `w`eeks, `m`onths or `y`ears,
//! case-insensitive, with surrounding blanks ignored.

use vstd::prelude::*;

verus! {

/// Static profile data served beside the relay; opaque to the routing logic.
#[derive(Debug, Clone, PartialEq, Eq)]
pub struct Profile {
    pub server_name: String,
    pub server_description: String,
    pub admin_contact: String,
    pub server_location: String,
}

/// Which durable store backs the registry and the mailboxes, and where it is.
#[derive(Debug, Clone, PartialEq, Eq)]
pub struct Database {
    pub type_: String,
    pub url: String,
}

/// Retention settings: whether stale records expire, and after how long.
#[derive(Debug, Clone, PartialEq, Eq)]
pub struct DetailedConfig {
    pub auto_delete: bool,
    pub auto_delete_time: String,
}

/// The whole configuration handed to the relay at startup.
#[derive(Debug, Clone, PartialEq, Eq)]
pub struct Config {
    pub profile: Profile,
    pub database: Database,
    pub config: DetailedConfig,
}

pub const SECONDS_IN_DAY: u64 = 86_400;
pub const SECONDS_IN_WEEK: u64 = 604_800;
// Average seconds in a month (30.44 days per month).
pub const SECONDS_IN_MONTH: u64 = 2_628_000;
// 365 days per year.
pub const SECONDS_IN_YEAR: u64 = 31_536_000;

/// The blank characters stripped from either end of a retention string.
pub open spec fn is_ascii_space(c: char) -> bool {
    c == ' ' || c == '\t' || c == '\n' || c == '\r'
}

/// `s` without its leading blanks.
pub open spec fn trim_front(s: Seq<char>) -> Seq<char>
    decreases s.len(),
{
    if s.len() > 0 && is_ascii_space(s[0]) {
        trim_front(s.drop_first())
    } else {
        s
    }
}

/// `s` without its trailing blanks.
pub open spec fn trim_back(s: Seq<char>) -> Seq<char>
    decreases s.len(),
{
    if s.len() > 0 && is_ascii_space(s.last()) {
        trim_back(s.drop_last())
    } else {
        s
    }
}

/// `s` without leading or trailing blanks.
pub open spec fn trimmed(s: Seq<char>) -> Seq<char> {
    trim_back(trim_front(s))
}

pub open spec fn is_ascii_digit(c: char) -> bool {
    '0' <= c && c <= '9'
}

pub open spec fn digit_val(c: char) -> int {
    (c as int) - ('0' as int)
}

pub open spec fn all_digits(s: Seq<char>) -> bool {
    forall|i: int| 0 <= i < s.len() ==> is_ascii_digit(#[trigger] s[i])
}

/// The number written in decimal by `s` (reading left to right).
pub open spec fn digits_value(s: Seq<char>) -> int
    decreases s.len(),
{
    if s.len() == 0 {
        0
    } else {
        digits_value(s.drop_last()) * 10 + digit_val(s.last())
    }
}

/// Seconds per unit letter, or `None` for an unknown unit.
pub open spec fn spec_unit_factor(c: char) -> Option<u64> {
    if c == 'd' || c == 'D' {
        Some(SECONDS_IN_DAY)
    } else if c == 'w' || c == 'W' {
        Some(SECONDS_IN_WEEK)
    } else if c == 'm' || c == 'M' {
        Some(SECONDS_IN_MONTH)
    } else if c == 'y' || c == 'Y' {
        Some(SECONDS_IN_YEAR)
    } else {
        None
    }
}

/// What [`time_str_to_seconds`] returns: the trimmed input must be one or
/// more digits followed by a unit letter, and the resulting number of
/// seconds must fit in a `u64`.
pub open spec fn spec_time_str_to_seconds(s: Seq<char>) -> Option<u64> {
    let t = trimmed(s);
    if t.len() < 2 {
        None
    } else {
        let num = t.drop_last();
        if !all_digits(num) || digits_value(num) > u64::MAX {
            None
        } else {
            match spec_unit_factor(t.last()) {
                Some(f) => if digits_value(num) * f <= u64::MAX {
                    Some((digits_value(num) * f) as u64)
                } else {
                    None
                },
                None => None,
            }
        }
    }
}

proof fn lemma_digits_value_nonneg(s: Seq<char>)
    requires
        all_digits(s),
    ensures
        digits_value(s) >= 0,
    decreases s.len(),
{
    if s.len() > 0 {
        assert(all_digits(s.drop_last())) by {
            assert(forall|i: int| 0 <= i < s.len() - 1 ==> s.drop_last()[i] == s[i]);
        }
        lemma_digits_value_nonneg(s.drop_last());
    }
}

/// A longer digit prefix never names a smaller number.
proof fn lemma_digits_value_prefix_le(s: Seq<char>, i: int)
    requires
        all_digits(s),
        0 <= i <= s.len(),
    ensures
        digits_value(s.take(i)) <= digits_value(s),
    decreases s.len() - i,
{
    if i < s.len() {
        lemma_digits_value_prefix_le(s, i + 1);
        assert(s.take(i + 1).drop_last() =~= s.take(i));
        assert(s.take(i + 1).last() == s[i]);
        assert(all_digits(s.take(i))) by {
            assert(forall|k: int| 0 <= k < i ==> s.take(i)[k] == s[k]);
        }
        lemma_digits_value_nonneg(s.take(i));
        assert(digits_value(s.take(i + 1)) == digits_value(s.take(i)) * 10 + digit_val(s[i]));
    } else {
        assert(s.take(i) =~= s);
    }
}

/// Index form of [`trim_front`]: dropping exactly the leading blanks.
proof fn lemma_trim_front_skip(s: Seq<char>, i: int)
    requires
        0 <= i <= s.len(),
        forall|k: int| 0 <= k < i ==> is_ascii_space(#[trigger] s[k]),
        i == s.len() || !is_ascii_space(s[i]),
    ensures
        trim_front(s) == s.skip(i),
    decreases i,
{
    if i == 0 {
        assert(s.skip(0) =~= s);
    } else {
        assert(is_ascii_space(s[0]));
        let d = s.drop_first();
        assert(forall|k: int| 0 <= k < i - 1 ==> d[k] == s[k + 1]);
        lemma_trim_front_skip(d, i - 1);
        assert(d.skip(i - 1) =~= s.skip(i));
    }
}

/// Index form of [`trim_back`]: dropping exactly the trailing blanks.
proof fn lemma_trim_back_take(s: Seq<char>, j: int)
    requires
        0 <= j <= s.len(),
        forall|k: int| j <= k < s.len() ==> is_ascii_space(#[trigger] s[k]),
        j == 0 || !is_ascii_space(s[j - 1]),
    ensures
        trim_back(s) == s.take(j),
    decreases s.len() - j,
{
    if j == s.len() {
        assert(s.take(j) =~= s);
    } else {
        assert(is_ascii_space(s.last()));
        let d = s.drop_last();
        assert(forall|k: int| 0 <= k < s.len() - 1 ==> d[k] == s[k]);
        lemma_trim_back_take(d, j);
        assert(d.take(j) =~= s.take(j));
    }
}

fn is_space_char(c: char) -> (b: bool)
    ensures
        b == is_ascii_space(c),
{
    c == ' ' || c == '\t' || c == '\n' || c == '\r'
}

fn unit_factor(c: char) -> (r: Option<u64>)
    ensures
        r == spec_unit_factor(c),
{
    if c == 'd' || c == 'D' {
        Some(SECONDS_IN_DAY)
    } else if c == 'w' || c == 'W' {
        Some(SECONDS_IN_WEEK)
    } else if c == 'm' || c == 'M' {
        Some(SECONDS_IN_MONTH)
    } else if c == 'y' || c == 'Y' {
        Some(SECONDS_IN_YEAR)
    } else {
        None
    }
}

/// Parse a retention string ("14d", " 2W ") into seconds.
///
/// Returns `None` when the trimmed input is not digits followed by a known
/// unit letter, or when the number of seconds would not fit in a `u64`.
pub fn time_str_to_seconds(input: &str) -> (r: Option<u64>)
    ensures
        r == spec_time_str_to_seconds(input@),
{
    let ghost s = input@;
    let n = input.unicode_len();

    let mut start: usize = 0;
    while start < n
        invariant
            n == s.len(),
            s == input@,
            start <= n,
            forall|k: int| 0 <= k < start ==> is_ascii_space(#[trigger] s[k]),
        ensures
            n == s.len(),
            start <= n,
            forall|k: int| 0 <= k < start ==> is_ascii_space(#[trigger] s[k]),
            start < n ==> !is_ascii_space(s[start as int]),
        decreases n - start,
    {
        let c = input.get_char(start);
        if !is_space_char(c) {
            break;
        }
        start = start + 1;
    }
    proof {
        lemma_trim_front_skip(s, start as int);
    }
    let ghost f = s.skip(start as int);

    let mut end: usize = n;
    while end > start
        invariant
            n == s.len(),
            s == input@,
            start <= end <= n,
            forall|k: int| end <= k < n ==> is_ascii_space(#[trigger] s[k]),
        ensures
            start <= end <= n,
            forall|k: int| end <= k < n ==> is_ascii_space(#[trigger] s[k]),
            end > start ==> !is_ascii_space(s[end - 1]),
        decreases end,
    {
        let c = input.get_char(end - 1);
        if !is_space_char(c) {
            break;
        }
        end = end - 1;
    }
    proof {
        assert(forall|k: int| 0 <= k < f.len() ==> f[k] == s[k + start]);
        lemma_trim_back_take(f, end - start);
        assert(trimmed(s) =~= s.subrange(start as int, end as int));
    }
    let ghost t = trimmed(s);

    if end - start < 2 {
        return None;
    }
    let ghost num = t.drop_last();
    proof {
        assert(num =~= s.subrange(start as int, end - 1));
    }

    let last = end - 1;
    let mut acc: u64 = 0;
    let mut i = start;
    while i < last
        invariant
            n == s.len(),
            s == input@,
            start <= i <= last,
            last < n,
            last == end - 1,
            start + 2 <= end <= n,
            trimmed(s) == s.subrange(start as int, end as int),
            num == trimmed(s).drop_last(),
            num == s.subrange(start as int, last as int),
            forall|k: int| start <= k < i ==> is_ascii_digit(#[trigger] s[k]),
            acc == digits_value(s.subrange(start as int, i as int)),
        decreases last - i,
    {
        let c = input.get_char(i);
        if !(c >= '0' && c <= '9') {
            assert(!all_digits(num)) by {
                assert(num[i - start] == s[i as int]);
            }
            return None;
        }
        let d: u64 = ((c as u32) - 48) as u64;
        let ghost prefix = s.subrange(start as int, i as int);
        let ghost prefix1 = s.subrange(start as int, i + 1);
        proof {
            assert(prefix1.drop_last() =~= prefix);
            assert(prefix1.last() == s[i as int]);
            assert(digits_value(prefix1) == digits_value(prefix) * 10 + digit_val(s[i as int]));
        }
        let step = match acc.checked_mul(10) {
            Some(a) => a.checked_add(d),
            None => None,
        };
        match step {
            Some(a) => {
                acc = a;
            },
            None => {
                // The prefix read so far already exceeds `u64`; the full
                // number can only be at least as large.
                proof {
                    if all_digits(num) {
                        assert(num.take(i + 1 - start) =~= prefix1);
                        lemma_digits_value_prefix_le(num, i + 1 - start);
                    }
                }
                return None;
            },
        }
        i = i + 1;
    }
    proof {
        assert(all_digits(num));
        assert(acc == digits_value(num));
        assert(t.last() == s[end - 1]);
    }

    let unit = input.get_char(end - 1);
    match unit_factor(unit) {
        Some(factor) => {
            match acc.checked_mul(factor) {
                Some(total) => Some(total),
                None => None,
            }
        },
        None => None,
    }
}

} // verus!
