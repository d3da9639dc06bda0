//! The platform probe: whether the running kernel offers completion I/O,
//! judged by its release string.

use vstd::prelude::*;
use vstd::string::StrSliceExecFns;

verus! {

/// Why a release string gives no version.
#[derive(Debug, Clone, Copy, PartialEq, Eq, Structural)]
pub enum KernelVersionError {
    /// The string holds no dot, so it has no two parts.
    InvalidFormat,
    /// The part before the first dot is not a number that fits in 32 bits.
    InvalidMajor,
}

/// The first major version whose completion I/O is used.
pub const MIN_URING_MAJOR: u32 = 6;

pub open spec fn is_digit(c: char) -> bool {
    '0' <= c <= '9'
}

pub open spec fn all_digits(s: Seq<char>) -> bool {
    forall|i: int| 0 <= i < s.len() ==> is_digit(#[trigger] s[i])
}

/// The number that a string of decimal digits writes.
pub open spec fn digits_value(s: Seq<char>) -> nat
    decreases s.len(),
{
    if s.len() == 0 {
        0
    } else {
        (digits_value(s.drop_last()) * 10 + (s.last() as u32 - '0' as u32)) as nat
    }
}

/// An unsigned decimal number: an optional `+`, then at least one digit and
/// nothing else, with a value that fits in 32 bits.
pub open spec fn spec_parse_u32(s: Seq<char>) -> Option<u32> {
    let digits = if s.len() > 0 && s[0] == '+' {
        s.skip(1)
    } else {
        s
    };
    if digits.len() > 0 && all_digits(digits) && digits_value(digits) <= u32::MAX {
        Some(digits_value(digits) as u32)
    } else {
        None
    }
}

/// The place of the first dot at or after `from`, or the length of the
/// string where there is none.
pub open spec fn first_dot(s: Seq<char>, from: int) -> int
    decreases s.len() - from,
{
    if from >= s.len() {
        s.len() as int
    } else if from >= 0 && s[from] == '.' {
        from
    } else {
        first_dot(s, from + 1)
    }
}

/// Major and minor version of a release string such as `6.5.0-14-generic`:
/// the two parts around its first dot. The major part has to be a number; a
/// minor part that is none counts as 0.
pub open spec fn spec_kernel_version(s: Seq<char>) -> Result<(u32, u32), KernelVersionError> {
    let dot = first_dot(s, 0);
    if dot >= s.len() {
        Err(KernelVersionError::InvalidFormat)
    } else {
        let end = first_dot(s, dot + 1);
        match spec_parse_u32(s.subrange(0, dot)) {
            None => Err(KernelVersionError::InvalidMajor),
            Some(major) => match spec_parse_u32(s.subrange(dot + 1, end)) {
                Some(minor) => Ok((major, minor)),
                None => Ok((major, 0u32)),
            },
        }
    }
}

pub open spec fn spec_is_io_uring_supported(release: Option<&str>) -> bool {
    match release {
        Some(s) => match spec_kernel_version(s@) {
            Ok(version) => version.0 >= MIN_URING_MAJOR,
            Err(_) => false,
        },
        None => false,
    }
}

/// A number only grows as digits are written behind it.
proof fn lemma_value_grows(s: Seq<char>, n: int)
    requires
        0 <= n <= s.len(),
        all_digits(s.take(n)),
    ensures
        all_digits(s) ==> digits_value(s.take(n)) <= digits_value(s),
    decreases s.len() - n,
{
    if n == s.len() {
        assert(s.take(n) =~= s);
    } else if all_digits(s) {
        assert(is_digit(s[n]));
        assert(s.take(n + 1).drop_last() =~= s.take(n));
        assert forall|i: int| 0 <= i < n + 1 implies is_digit(#[trigger] s.take(n + 1)[i]) by {
            assert(is_digit(s[i]));
        }
        lemma_value_grows(s, n + 1);
    }
}

fn find_dot(s: &str, from: usize, len: usize) -> (dot: usize)
    requires
        from <= len == s@.len(),
    ensures
        dot == first_dot(s@, from as int),
        from <= dot <= len,
{
    let mut i: usize = from;
    while i < len
        invariant
            from <= i <= len == s@.len(),
            first_dot(s@, i as int) == first_dot(s@, from as int),
        decreases len - i,
    {
        if s.get_char(i) == '.' {
            return i;
        }
        i = i + 1;
    }
    i
}

fn parse_u32(s: &str, from: usize, to: usize) -> (number: Option<u32>)
    requires
        from <= to <= s@.len(),
    ensures
        number == spec_parse_u32(s@.subrange(from as int, to as int)),
{
    let ghost part = s@.subrange(from as int, to as int);
    let mut i: usize = from;
    if i < to && s.get_char(i) == '+' {
        i = i + 1;
    }
    let start = i;
    let ghost digits = s@.subrange(start as int, to as int);
    assert(digits =~= if part.len() > 0 && part[0] == '+' {
        part.skip(1)
    } else {
        part
    });
    if i == to {
        return None;
    }
    let mut value: u64 = 0;
    assert(digits.take(0) =~= Seq::<char>::empty());
    while i < to
        invariant
            start <= i <= to <= s@.len(),
            digits == s@.subrange(start as int, to as int),
            part == s@.subrange(from as int, to as int),
            from <= to,
            digits == if part.len() > 0 && part[0] == '+' {
                part.skip(1)
            } else {
                part
            },
            all_digits(digits.take(i - start)),
            value == digits_value(digits.take(i - start)),
            value <= u32::MAX,
        decreases to - i,
    {
        let c = s.get_char(i);
        assert(c == digits[i - start]);
        if c < '0' || c > '9' {
            assert(!is_digit(digits[i - start]));
            return None;
        }
        let ghost longer = digits.take(i - start + 1);
        assert(longer.drop_last() =~= digits.take(i - start));
        assert(longer.last() == c);
        assert forall|k: int| 0 <= k < longer.len() implies is_digit(#[trigger] longer[k]) by {
            if k < i - start {
                assert(is_digit(digits.take(i - start)[k]));
            }
        }
        value = value * 10 + (c as u32 - '0' as u32) as u64;
        if value > 0xffff_ffff {
            proof {
                lemma_value_grows(digits, i - start + 1);
            }
            return None;
        }
        i = i + 1;
    }
    assert(digits.take(to - start) =~= digits);
    Some(value as u32)
}

/// Reads major and minor version from a kernel release string.
pub fn get_kernel_version(release: &str) -> (version: Result<(u32, u32), KernelVersionError>)
    ensures
        version == spec_kernel_version(release@),
{
    let len = release.unicode_len();
    let dot = find_dot(release, 0, len);
    if dot >= len {
        return Err(KernelVersionError::InvalidFormat);
    }
    let end = find_dot(release, dot + 1, len);
    match parse_u32(release, 0, dot) {
        None => Err(KernelVersionError::InvalidMajor),
        Some(major) => match parse_u32(release, dot + 1, end) {
            Some(minor) => Ok((major, minor)),
            None => Ok((major, 0)),
        },
    }
}

/// Whether completion I/O is used on a machine whose kernel reports
/// `release`: from major version 6 on. `None` stands for a platform without
/// such a release string, or a failed query, and gives `false`, as does a
/// release string that has no version.
pub fn is_io_uring_supported(release: Option<&str>) -> (supported: bool)
    ensures
        supported == spec_is_io_uring_supported(release),
{
    match release {
        Some(s) => match get_kernel_version(s) {
            Ok(version) => version.0 >= MIN_URING_MAJOR,
            Err(_) => false,
        },
        None => false,
    }
}

} // verus!
