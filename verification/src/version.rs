//! The self-update check's decision: semantic versions, their parsing
//! and their ordering. A strictly newer published release leads to a
//! notice and a bounded delay; the check never aborts the run, so any
//! failure to obtain or parse the published version is treated by the
//! caller as "no update available".

use vstd::prelude::*;

verus! {

/// A semantic version.
pub struct Version {
    pub major: u64,
    pub minor: u64,
    pub patch: u64,
}

/// Mathematical image of a version.
pub ghost struct VersionV {
    pub major: int,
    pub minor: int,
    pub patch: int,
}

impl View for Version {
    type V = VersionV;

    open spec fn view(&self) -> VersionV {
        VersionV { major: self.major as int, minor: self.minor as int, patch: self.patch as int }
    }
}

/// A decimal digit.
pub open spec fn is_digit(c: char) -> bool {
    48 <= c as u32 && c as u32 <= 57
}

/// Its value.
pub open spec fn digit_val(c: char) -> int {
    c as u32 - 48
}

/// Every character is a decimal digit.
pub open spec fn all_digits(s: Seq<char>) -> bool {
    forall|i: int| 0 <= i < s.len() ==> is_digit(#[trigger] s[i])
}

/// The number a digit string denotes.
pub open spec fn digits_val(s: Seq<char>) -> int
    decreases s.len(),
{
    if s.len() == 0 {
        0
    } else {
        digits_val(s.drop_last()) * 10 + digit_val(s.last())
    }
}

/// A version component parses when it is a non-empty digit string
/// whose value a machine word can hold.
pub open spec fn spec_parse_component(s: Seq<char>) -> Option<int> {
    if s.len() > 0 && all_digits(s) && digits_val(s) <= u64::MAX {
        Some(digits_val(s))
    } else {
        None
    }
}

/// Position of the first dot at or after `k`.
pub open spec fn first_dot_from(s: Seq<char>, k: int) -> Option<int>
    decreases s.len() - k,
{
    if k < 0 || k >= s.len() {
        None
    } else if s[k] == '.' {
        Some(k)
    } else {
        first_dot_from(s, k + 1)
    }
}

/// A version string parses when it is exactly three parseable
/// components joined by two dots.
pub open spec fn spec_parse_version(s: Seq<char>) -> Option<VersionV> {
    match first_dot_from(s, 0) {
        None => None,
        Some(i) => match first_dot_from(s, i + 1) {
            None => None,
            Some(j) => if first_dot_from(s, j + 1) is Some {
                None
            } else {
                match (
                    spec_parse_component(s.take(i)),
                    spec_parse_component(s.subrange(i + 1, j)),
                    spec_parse_component(s.skip(j + 1)),
                ) {
                    (Some(a), Some(b), Some(c)) => Some(VersionV { major: a, minor: b, patch: c }),
                    _ => None,
                }
            },
        },
    }
}

/// A found dot lies between the cursor and the end of the string.
proof fn lemma_first_dot_bounds(s: Seq<char>, k: int)
    requires
        first_dot_from(s, k) is Some,
    ensures
        k <= first_dot_from(s, k).unwrap() < s.len(),
    decreases s.len() - k,
{
    if !(k < 0 || k >= s.len()) && s[k] != '.' {
        lemma_first_dot_bounds(s, k + 1);
    }
}

/// A digit string's value is not negative.
proof fn lemma_digits_val_nonneg(s: Seq<char>)
    requires
        all_digits(s),
    ensures
        digits_val(s) >= 0,
    decreases s.len(),
{
    if s.len() > 0 {
        lemma_digits_val_nonneg(s.drop_last());
    }
}

/// A digit string's value does not fall below the value of any of its
/// initial segments.
proof fn lemma_digits_val_prefix(s: Seq<char>, m: int)
    requires
        all_digits(s),
        0 <= m <= s.len(),
    ensures
        digits_val(s) >= digits_val(s.take(m)),
    decreases s.len(),
{
    if m == s.len() {
        assert(s.take(m) =~= s);
    } else {
        assert(s.drop_last().take(m) =~= s.take(m));
        assert(all_digits(s.drop_last()));
        lemma_digits_val_prefix(s.drop_last(), m);
        lemma_digits_val_nonneg(s.drop_last());
    }
}

/// Parse a non-empty all-digit substring of `s` as a machine word.
fn parse_component(s: &str, from: usize, to: usize) -> (r: Option<u64>)
    requires
        from <= to <= s@.len(),
    ensures
        match r {
            Some(v) => spec_parse_component(s@.subrange(from as int, to as int)) == Some(v as int),
            None => spec_parse_component(s@.subrange(from as int, to as int)) is None,
        },
{
    let ghost part = s@.subrange(from as int, to as int);
    if from == to {
        return None;
    }
    let mut acc: u64 = 0;
    let mut k: usize = from;
    while k < to
        invariant
            from <= k <= to <= s@.len(),
            part == s@.subrange(from as int, to as int),
            all_digits(part.take(k - from)),
            acc == digits_val(part.take(k - from)),
        decreases to - k,
    {
        let c = s.get_char(k);
        let code: u32 = c as u32;
        assert(part[k - from] == c);
        if code < 48 || code > 57 {
            assert(!is_digit(part[k - from]));
            assert(!all_digits(part));
            return None;
        }
        let d: u64 = (code - 48) as u64;
        proof {
            assert(part.take(k - from + 1).drop_last() =~= part.take(k - from));
            assert(part.take(k - from + 1).last() == part[k - from]);
        }
        if acc > (u64::MAX - d) / 10 {
            proof {
                assert(all_digits(part.take(k - from + 1)));
                assert(digits_val(part.take(k - from + 1)) == acc * 10 + d > u64::MAX);
                if all_digits(part) {
                    lemma_digits_val_prefix(part, k - from + 1);
                }
            }
            return None;
        }
        acc = acc * 10 + d;
        k = k + 1;
    }
    proof {
        assert(part.take(to - from) =~= part);
    }
    Some(acc)
}

/// Parse a version string: exactly three dot-separated decimal
/// components, as [`spec_parse_version`] lays down. Anything else —
/// missing or surplus dots, an empty or non-numeric component, a
/// component too large for a machine word — does not parse.
pub fn parse_version(s: &str) -> (r: Option<Version>)
    ensures
        match r {
            Some(v) => spec_parse_version(s@) == Some(v@),
            None => spec_parse_version(s@) is None,
        },
{
    let n: usize = s.unicode_len();
    let mut first: Option<usize> = None;
    let mut second: Option<usize> = None;
    let mut k: usize = 0;
    while k < n
        invariant
            k <= n == s@.len(),
            match first {
                Some(i) => {
                    &&& first_dot_from(s@, 0) == Some(i as int)
                    &&& (i as int) < k
                    &&& match second {
                        Some(j) => first_dot_from(s@, i + 1 as int) == Some(j as int) && (j as int)
                            < k && first_dot_from(s@, j + 1 as int) == first_dot_from(
                            s@,
                            k as int,
                        ),
                        None => first_dot_from(s@, i + 1 as int) == first_dot_from(s@, k as int),
                    }
                },
                None => second is None && first_dot_from(s@, 0) == first_dot_from(s@, k as int),
            },
        decreases n - k,
    {
        let c = s.get_char(k);
        if c == '.' {
            if first.is_none() {
                first = Some(k);
            } else if second.is_none() {
                second = Some(k);
            } else {
                // a third dot: cannot parse
                assert(first_dot_from(s@, k as int) == Some(k as int));
                return None;
            }
        }
        k = k + 1;
    }
    let i = match first {
        Some(i) => i,
        None => {
            return None;
        },
    };
    let j = match second {
        Some(j) => j,
        None => {
            return None;
        },
    };
    assert(first_dot_from(s@, j + 1 as int) is None);
    proof {
        lemma_first_dot_bounds(s@, 0);
        lemma_first_dot_bounds(s@, i + 1 as int);
    }
    let major = parse_component(s, 0, i);
    let minor = parse_component(s, i + 1, j);
    let patch = parse_component(s, j + 1, n);
    proof {
        assert(s@.take(i as int) =~= s@.subrange(0, i as int));
        assert(s@.skip(j + 1 as int) =~= s@.subrange(j + 1 as int, n as int));
    }
    match (major, minor, patch) {
        (Some(a), Some(b), Some(c)) => Some(Version { major: a, minor: b, patch: c }),
        _ => None,
    }
}

/// Strict ordering of versions: major, then minor, then patch.
pub open spec fn version_lt(a: VersionV, b: VersionV) -> bool {
    ||| a.major < b.major
    ||| (a.major == b.major && a.minor < b.minor)
    ||| (a.major == b.major && a.minor == b.minor && a.patch < b.patch)
}

/// Should the self-update check notify and delay? Exactly when the
/// published version is strictly newer than the running one.
pub fn should_notify_update(current: &Version, latest: &Version) -> (r: bool)
    ensures
        r == version_lt(current@, latest@),
{
    if latest.major != current.major {
        latest.major > current.major
    } else if latest.minor != current.minor {
        latest.minor > current.minor
    } else {
        latest.patch > current.patch
    }
}

} // verus!
