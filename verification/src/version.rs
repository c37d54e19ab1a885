//! Runtime version detection.
//!
//! The embedded Python runtime reports its version as a string of the form
//! `"<major>.<minor>.<patch> <build-metadata>"`. The detector splits it at
//! the first space, splits the dotted triple on `.`, reads major and minor
//! as decimal integers, and classifies the pair into a closed set of four
//! supported minor version lines, or `Unknown` carrying the raw string.

use vstd::prelude::*;

use crate::text::{find_from, lemma_first_index, lemma_no_index};

verus! {

/// The classification of the embedded runtime's release: one tag per
/// supported minor version line, or `Unknown` with the unparsed text.
#[derive(Debug, Clone)]
pub enum PyVersion {
    Py3_10,
    Py3_11,
    Py3_12,
    Py3_13,
    Unknown(String),
}

/// A decimal digit.
pub open spec fn is_digit(c: char) -> bool {
    '0' <= c && c <= '9'
}

/// Every character of `s` is a decimal digit.
pub open spec fn all_digits(s: Seq<char>) -> bool {
    forall|i: int| 0 <= i < s.len() ==> is_digit(s[i])
}

/// The value of a digit character.
pub open spec fn digit_val(c: char) -> nat {
    (c as nat - '0' as nat) as nat
}

/// The value of a digit string read as a decimal number.
pub open spec fn digits_value(s: Seq<char>) -> nat
    decreases s.len(),
{
    if s.len() == 0 {
        0
    } else {
        digits_value(s.drop_last()) * 10 + digit_val(s.last())
    }
}

/// The dotted triple: everything before the first space.
pub open spec fn dotted_part(s: Seq<char>) -> Seq<char> {
    match s.index_of_first(' ') {
        Some(i) => s.subrange(0, i),
        None => s,
    }
}

/// The first `.`-separated segment of the dotted triple.
pub open spec fn major_seg(s: Seq<char>) -> Seq<char> {
    let p = dotted_part(s);
    match p.index_of_first('.') {
        Some(i) => p.subrange(0, i),
        None => p,
    }
}

/// The second `.`-separated segment of the dotted triple.
pub open spec fn minor_seg(s: Seq<char>) -> Seq<char> {
    let p = dotted_part(s);
    match p.index_of_first('.') {
        Some(i) => {
            let rest = p.subrange(i + 1, p.len() as int);
            match rest.index_of_first('.') {
                Some(j) => rest.subrange(0, j),
                None => rest,
            }
        },
        None => Seq::empty(),
    }
}

/// A nonempty digit string whose decimal value fits an 8-bit integer.
pub open spec fn numeric_seg(s: Seq<char>) -> bool {
    s.len() > 0 && all_digits(s) && digits_value(s) < 256
}

/// A version string the detector is specified on: it has a space, the part
/// before the space has a `.`, and the first two dotted segments are
/// numeric. Anything else is a contract violation of the caller.
pub open spec fn wf_version_string(s: Seq<char>) -> bool {
    &&& s.contains(' ')
    &&& dotted_part(s).contains('.')
    &&& numeric_seg(major_seg(s))
    &&& numeric_seg(minor_seg(s))
}

/// The major version number of a well-formed version string.
pub open spec fn version_major(s: Seq<char>) -> nat {
    digits_value(major_seg(s))
}

/// The minor version number of a well-formed version string.
pub open spec fn version_minor(s: Seq<char>) -> nat {
    digits_value(minor_seg(s))
}

/// What the detector yields for a given version string.
pub open spec fn spec_classify(version: String) -> PyVersion {
    let m = version_major(version@);
    let n = version_minor(version@);
    if m == 3 && n == 10 {
        PyVersion::Py3_10
    } else if m == 3 && n == 11 {
        PyVersion::Py3_11
    } else if m == 3 && n == 12 {
        PyVersion::Py3_12
    } else if m == 3 && n == 13 {
        PyVersion::Py3_13
    } else {
        PyVersion::Unknown(version)
    }
}

/// The short numeric token each classification projects to, used for
/// filename construction.
pub open spec fn token_of(v: PyVersion) -> Seq<char> {
    match v {
        PyVersion::Py3_10 => "310"@,
        PyVersion::Py3_11 => "311"@,
        PyVersion::Py3_12 => "312"@,
        PyVersion::Py3_13 => "313"@,
        PyVersion::Unknown(_) => "unknown"@,
    }
}

/// The human-readable form of a classification.
pub open spec fn display_of(v: PyVersion) -> Seq<char> {
    match v {
        PyVersion::Py3_10 => "3.10.x"@,
        PyVersion::Py3_11 => "3.11.x"@,
        PyVersion::Py3_12 => "3.12.x"@,
        PyVersion::Py3_13 => "3.13.x"@,
        PyVersion::Unknown(raw) => raw@,
    }
}

/// For every well-formed version string the classification is decided by
/// the major/minor pair alone: `(3, 10)` through `(3, 13)` yield the
/// corresponding closed-set tag, whose token projection is `"310"` through
/// `"313"`; every other pair yields `Unknown` carrying the original string
/// verbatim, whose token projection is the literal `"unknown"`.
pub proof fn lemma_detector_classification(version: String)
    requires
        wf_version_string(version@),
    ensures
        version_major(version@) == 3 && version_minor(version@) == 10 ==> spec_classify(version)
            == PyVersion::Py3_10 && token_of(spec_classify(version)) == "310"@,
        version_major(version@) == 3 && version_minor(version@) == 11 ==> spec_classify(version)
            == PyVersion::Py3_11 && token_of(spec_classify(version)) == "311"@,
        version_major(version@) == 3 && version_minor(version@) == 12 ==> spec_classify(version)
            == PyVersion::Py3_12 && token_of(spec_classify(version)) == "312"@,
        version_major(version@) == 3 && version_minor(version@) == 13 ==> spec_classify(version)
            == PyVersion::Py3_13 && token_of(spec_classify(version)) == "313"@,
        !(version_major(version@) == 3 && (version_minor(version@) == 10 || version_minor(
            version@,
        ) == 11 || version_minor(version@) == 12 || version_minor(version@) == 13))
            ==> spec_classify(version) == PyVersion::Unknown(version) && token_of(
            spec_classify(version),
        ) == "unknown"@,
{
}

/// The detector is a pure function of its input: every run's contract pins
/// the result to `spec_classify`, so two runs on identical input yield
/// identical classifications.
pub proof fn lemma_detector_deterministic(version: String, r1: PyVersion, r2: PyVersion)
    requires
        r1 == spec_classify(version),
        r2 == spec_classify(version),
    ensures
        r1 == r2,
{
}

/// The decimal value of a prefix of a digit string never exceeds the value
/// of the whole string.
proof fn lemma_digits_prefix_le(s: Seq<char>, i: int)
    requires
        all_digits(s),
        0 <= i <= s.len(),
    ensures
        digits_value(s.subrange(0, i)) <= digits_value(s),
    decreases s.len() - i,
{
    if i == s.len() {
        assert(s.subrange(0, i) =~= s);
    } else {
        let a = s.subrange(0, i);
        let b = s.subrange(0, i + 1);
        assert(b.drop_last() =~= a);
        assert(digits_value(b) == digits_value(a) * 10 + digit_val(s[i]));
        lemma_digits_prefix_le(s, i + 1);
    }
}

/// Reads a nonempty digit string as a decimal number.
pub fn parse_decimal(s: &str) -> (r: u8)
    requires
        numeric_seg(s@),
    ensures
        r as nat == digits_value(s@),
{
    let n = s.unicode_len();
    let mut acc: u32 = 0;
    let mut i: usize = 0;
    while i < n
        invariant
            0 <= i <= n,
            n == s@.len(),
            numeric_seg(s@),
            acc as nat == digits_value(s@.subrange(0, i as int)),
            acc < 256,
        decreases n - i,
    {
        let c = s.get_char(i);
        proof {
            lemma_digits_prefix_le(s@, i as int + 1);
            assert(s@.subrange(0, i as int + 1).drop_last() =~= s@.subrange(0, i as int));
            assert(s@.subrange(0, i as int + 1).last() == s@[i as int]);
            assert(is_digit(c));
        }
        let d: u32 = c as u32 - '0' as u32;
        acc = acc * 10 + d;
        i = i + 1;
    }
    proof {
        assert(s@.subrange(0, n as int) =~= s@);
    }
    acc as u8
}

/// Decides whether a version string is well formed, so that a caller can
/// reject malformed text before invoking the detector.
pub fn is_wf_version_string(s: &str) -> (r: bool)
    ensures
        r == wf_version_string(s@),
{
    let n = s.unicode_len();
    let sp = match find_from(s, 0, ' ') {
        Some(sp) => sp,
        None => {
            proof {
                lemma_no_index(s@, ' ');
                s@.index_of_first_ensures(' ');
            }
            return false;
        },
    };
    proof {
        lemma_first_index(s@, ' ', sp as int);
        assert(s@.contains(' ')) by {
            assert(s@[sp as int] == ' ');
        }
    }
    let dotted = s.substring_char(0, sp);
    let d1 = match find_from(dotted, 0, '.') {
        Some(d1) => d1,
        None => {
            proof {
                lemma_no_index(dotted@, '.');
                dotted@.index_of_first_ensures('.');
            }
            return false;
        },
    };
    proof {
        lemma_first_index(dotted@, '.', d1 as int);
        assert(dotted_part(s@).contains('.')) by {
            assert(dotted@[d1 as int] == '.');
        }
    }
    let maj = dotted.substring_char(0, d1);
    let dlen = dotted.unicode_len();
    let rest = dotted.substring_char(d1 + 1, dlen);
    let min = match find_from(rest, 0, '.') {
        Some(d2) => {
            proof {
                lemma_first_index(rest@, '.', d2 as int);
            }
            rest.substring_char(0, d2)
        },
        None => {
            proof {
                lemma_no_index(rest@, '.');
            }
            rest
        },
    };
    proof {
        assert(maj@ == major_seg(s@));
        assert(min@ == minor_seg(s@));
    }
    is_numeric_seg(maj) && is_numeric_seg(min)
}

/// Decides whether a segment is nonempty, all digits, and small enough.
pub fn is_numeric_seg(s: &str) -> (r: bool)
    ensures
        r == numeric_seg(s@),
{
    let n = s.unicode_len();
    if n == 0 {
        return false;
    }
    let mut i: usize = 0;
    while i < n
        invariant
            0 <= i <= n,
            n == s@.len(),
            forall|j: int| 0 <= j < i ==> is_digit(s@[j]),
        decreases n - i,
    {
        let c = s.get_char(i);
        if !('0' <= c && c <= '9') {
            return false;
        }
        i = i + 1;
    }
    proof {
        lemma_digits_prefix_le(s@, 0);
    }
    let v = parse_value_capped(s);
    v < 256
}

/// Reads an all-digit string as a decimal number, capped at 256 once the
/// value can no longer fit an 8-bit integer.
fn parse_value_capped(s: &str) -> (r: u32)
    requires
        all_digits(s@),
    ensures
        r == if digits_value(s@) < 256 {
            digits_value(s@)
        } else {
            256nat
        },
{
    let n = s.unicode_len();
    let mut acc: u32 = 0;
    let mut i: usize = 0;
    while i < n
        invariant
            0 <= i <= n,
            n == s@.len(),
            all_digits(s@),
            acc == if digits_value(s@.subrange(0, i as int)) < 256 {
                digits_value(s@.subrange(0, i as int))
            } else {
                256nat
            },
        decreases n - i,
    {
        let c = s.get_char(i);
        proof {
            assert(s@.subrange(0, i as int + 1).drop_last() =~= s@.subrange(0, i as int));
            assert(s@.subrange(0, i as int + 1).last() == s@[i as int]);
            assert(is_digit(c));
        }
        let d: u32 = c as u32 - '0' as u32;
        let next = acc * 10 + d;
        acc = if next > 256 {
            256
        } else {
            next
        };
        i = i + 1;
    }
    proof {
        assert(s@.subrange(0, n as int) =~= s@);
    }
    acc
}

impl PyVersion {
    /// Classifies a well-formed version string: `(3, 10)` through `(3, 13)`
    /// map to the four supported tags; any other major/minor pair yields
    /// `Unknown` carrying the original string verbatim.
    pub fn from(version: String) -> (r: PyVersion)
        requires
            wf_version_string(version@),
        ensures
            r == spec_classify(version),
    {
        let s = version.as_str();
        let sp = match find_from(s, 0, ' ') {
            Some(sp) => sp,
            None => {
                proof {
                    let w = choose|i: int| 0 <= i < s@.len() && s@[i] == ' ';
                    assert(s@[w] == ' ');
                    assert(false);
                }
                return PyVersion::Unknown(version);
            },
        };
        proof {
            lemma_first_index(s@, ' ', sp as int);
        }
        let dotted = s.substring_char(0, sp);
        let d1 = match find_from(dotted, 0, '.') {
            Some(d1) => d1,
            None => {
                proof {
                    let w = choose|i: int|
                        0 <= i < dotted_part(s@).len() && dotted_part(s@)[i] == '.';
                    assert(dotted@[w] == '.');
                    assert(false);
                }
                return PyVersion::Unknown(version);
            },
        };
        proof {
            lemma_first_index(dotted@, '.', d1 as int);
        }
        let maj = dotted.substring_char(0, d1);
        let dlen = dotted.unicode_len();
        let rest = dotted.substring_char(d1 + 1, dlen);
        let min = match find_from(rest, 0, '.') {
            Some(d2) => {
                proof {
                    lemma_first_index(rest@, '.', d2 as int);
                }
                rest.substring_char(0, d2)
            },
            None => {
                proof {
                    lemma_no_index(rest@, '.');
                }
                rest
            },
        };
        proof {
            assert(maj@ == major_seg(version@));
            assert(min@ == minor_seg(version@));
        }
        let major = parse_decimal(maj);
        let minor = parse_decimal(min);
        match (major, minor) {
            (3, 10) => PyVersion::Py3_10,
            (3, 11) => PyVersion::Py3_11,
            (3, 12) => PyVersion::Py3_12,
            (3, 13) => PyVersion::Py3_13,
            _ => PyVersion::Unknown(version),
        }
    }

    /// The numeric token for filename construction; `Unknown` projects to a
    /// literal that never names a real file, failing fast at load time.
    pub fn to_version(&self) -> (r: &'static str)
        ensures
            r@ == token_of(*self),
    {
        match self {
            PyVersion::Py3_10 => "310",
            PyVersion::Py3_11 => "311",
            PyVersion::Py3_12 => "312",
            PyVersion::Py3_13 => "313",
            PyVersion::Unknown(_) => "unknown",
        }
    }

    /// The human-readable form, `"3.10.x"` and so on, or the raw version
    /// text for an unknown runtime.
    pub fn display_string(&self) -> (r: String)
        ensures
            r@ == display_of(*self),
    {
        match self {
            PyVersion::Py3_10 => "3.10.x".to_owned(),
            PyVersion::Py3_11 => "3.11.x".to_owned(),
            PyVersion::Py3_12 => "3.12.x".to_owned(),
            PyVersion::Py3_13 => "3.13.x".to_owned(),
            PyVersion::Unknown(raw) => raw.clone(),
        }
    }
}

} // verus!
