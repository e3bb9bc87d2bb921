//! Release versions and the bare versions that bound a search.
use vstd::prelude::*;

verus! {

/// A semantic-version triple.
#[derive(Clone, Copy, Debug, PartialEq, Eq, Structural)]
pub struct Version {
    pub major: u64,
    pub minor: u64,
    pub patch: u64,
}

/// Lexicographic `a <= b` on version triples.
pub open spec fn version_le(a: Version, b: Version) -> bool {
    a.major < b.major || (a.major == b.major && (a.minor < b.minor || (a.minor == b.minor
        && a.patch <= b.patch)))
}

/// The character of a decimal digit.
pub open spec fn digit_char(d: nat) -> char {
    if d == 0 {
        '0'
    } else if d == 1 {
        '1'
    } else if d == 2 {
        '2'
    } else if d == 3 {
        '3'
    } else if d == 4 {
        '4'
    } else if d == 5 {
        '5'
    } else if d == 6 {
        '6'
    } else if d == 7 {
        '7'
    } else if d == 8 {
        '8'
    } else {
        '9'
    }
}

/// The decimal text of a natural number, without leading zeros.
pub open spec fn decimal(n: nat) -> Seq<char>
    decreases n,
{
    if n < 10 {
        seq![digit_char(n)]
    } else {
        decimal(n / 10).push(digit_char(n % 10))
    }
}

/// `MAJOR.MINOR.PATCH`.
pub open spec fn version_text(v: Version) -> Seq<char> {
    decimal(v.major as nat) + seq!['.'] + decimal(v.minor as nat) + seq!['.'] + decimal(
        v.patch as nat,
    )
}

fn digit_str(d: u64) -> (r: &'static str)
    requires
        d < 10,
    ensures
        r@ == seq![digit_char(d as nat)],
{
    proof {
        reveal_strlit("0");
        reveal_strlit("1");
        reveal_strlit("2");
        reveal_strlit("3");
        reveal_strlit("4");
        reveal_strlit("5");
        reveal_strlit("6");
        reveal_strlit("7");
        reveal_strlit("8");
        reveal_strlit("9");
    }
    match d {
        0 => "0",
        1 => "1",
        2 => "2",
        3 => "3",
        4 => "4",
        5 => "5",
        6 => "6",
        7 => "7",
        8 => "8",
        _ => "9",
    }
}

/// Appends the decimal text of `n` to `s`.
pub fn push_decimal(s: &mut String, n: u64)
    ensures
        final(s)@ == old(s)@ + decimal(n as nat),
    decreases n,
{
    if n >= 10 {
        push_decimal(s, n / 10);
        s.append(digit_str(n % 10));
        assert(s@ =~= old(s)@ + decimal(n as nat));
    } else {
        s.append(digit_str(n));
        assert(s@ =~= old(s)@ + decimal(n as nat));
    }
}

impl Version {
    pub fn new(major: u64, minor: u64, patch: u64) -> (r: Version)
        ensures
            r == (Version { major, minor, patch }),
    {
        Version { major, minor, patch }
    }

    /// `self <= other` in version order.
    pub fn le(&self, other: &Version) -> (r: bool)
        ensures
            r == version_le(*self, *other),
    {
        self.major < other.major || (self.major == other.major && (self.minor < other.minor || (
        self.minor == other.minor && self.patch <= other.patch)))
    }

    /// Whether both versions share their major and minor components.
    pub fn same_minor(&self, other: &Version) -> (r: bool)
        ensures
            r == (self.major == other.major && self.minor == other.minor),
    {
        self.major == other.major && self.minor == other.minor
    }

    /// The text `MAJOR.MINOR.PATCH`.
    pub fn to_text(&self) -> (r: String)
        ensures
            r@ == version_text(*self),
    {
        let mut s = String::new();
        push_decimal(&mut s, self.major);
        s.append(".");
        push_decimal(&mut s, self.minor);
        s.append(".");
        push_decimal(&mut s, self.patch);
        proof {
            reveal_strlit(".");
            assert(s@ =~= version_text(*self));
        }
        s
    }
}

/// A version written by hand: `MAJOR.MINOR` or `MAJOR.MINOR.PATCH`.
#[derive(Clone, Copy, Debug, PartialEq, Eq, Structural)]
pub enum BareVersion {
    TwoComponents(u64, u64),
    ThreeComponents(u64, u64, u64),
}

/// `v` is not older than the lower bound `b`; a missing patch counts as 0.
pub open spec fn at_least(v: Version, b: BareVersion) -> bool {
    match b {
        BareVersion::TwoComponents(ma, mi) => version_le(
            Version { major: ma, minor: mi, patch: 0 },
            v,
        ),
        BareVersion::ThreeComponents(ma, mi, pa) => version_le(
            Version { major: ma, minor: mi, patch: pa },
            v,
        ),
    }
}

/// `v` is not newer than the upper bound `b`; a missing patch matches every patch.
pub open spec fn at_most(v: Version, b: BareVersion) -> bool {
    match b {
        BareVersion::TwoComponents(ma, mi) => v.major < ma || (v.major == ma && v.minor <= mi),
        BareVersion::ThreeComponents(ma, mi, pa) => version_le(
            v,
            Version { major: ma, minor: mi, patch: pa },
        ),
    }
}

impl BareVersion {
    /// Whether `v` lies at or above this bound.
    pub fn admits_from_below(&self, v: &Version) -> (r: bool)
        ensures
            r == at_least(*v, *self),
    {
        match *self {
            BareVersion::TwoComponents(ma, mi) => Version::new(ma, mi, 0).le(v),
            BareVersion::ThreeComponents(ma, mi, pa) => Version::new(ma, mi, pa).le(v),
        }
    }

    /// Whether `v` lies at or below this bound.
    pub fn admits_from_above(&self, v: &Version) -> (r: bool)
        ensures
            r == at_most(*v, *self),
    {
        match *self {
            BareVersion::TwoComponents(ma, mi) => v.major < ma || (v.major == ma && v.minor <= mi),
            BareVersion::ThreeComponents(ma, mi, pa) => v.le(&Version::new(ma, mi, pa)),
        }
    }
}

/// A decimal digit.
pub open spec fn is_digit(c: char) -> bool {
    '0' <= c && c <= '9'
}

/// The fields read so far from a dotted text: the finished ones, the value
/// of the current one and whether it has a digit yet; `None` once the text
/// cannot be a dotted list of numbers that fit in `u64`.
pub open spec fn scan(s: Seq<char>) -> Option<(Seq<u64>, int, bool)>
    decreases s.len(),
{
    if s.len() == 0 {
        Some((seq![], 0, false))
    } else {
        match scan(s.drop_last()) {
            None => None,
            Some((done, cur, any)) => {
                let c = s.last();
                if c == '.' {
                    if any {
                        Some((done.push(cur as u64), 0, false))
                    } else {
                        None
                    }
                } else if is_digit(c) {
                    let v = cur * 10 + (c as int - '0' as int);
                    if v <= u64::MAX {
                        Some((done, v, true))
                    } else {
                        None
                    }
                } else {
                    None
                }
            },
        }
    }
}

/// The numbers of a text such as `1.58.0`: non-empty runs of decimal digits
/// separated by single dots, each fitting in `u64`.
pub open spec fn numbers_of(s: Seq<char>) -> Option<Seq<u64>> {
    match scan(s) {
        Some((done, cur, true)) => Some(done.push(cur as u64)),
        _ => None,
    }
}

/// Reads the dot-separated numbers of `text`.
pub fn parse_numbers(text: &str) -> (r: Option<Vec<u64>>)
    ensures
        match numbers_of(text@) {
            Some(ns) => r is Some && r->Some_0@ == ns,
            None => r is None,
        },
{
    let n = text.unicode_len();
    let mut done: Vec<u64> = Vec::new();
    let mut cur: u64 = 0;
    let mut any = false;
    let mut i: usize = 0;
    while i < n
        invariant
            n == text@.len(),
            i <= n,
            scan(text@.subrange(0, i as int)) == Some((done@, cur as int, any)),
        decreases n - i,
    {
        let c = text.get_char(i);
        let ghost prefix = text@.subrange(0, i + 1);
        proof {
            assert(prefix.drop_last() =~= text@.subrange(0, i as int));
            assert(prefix.last() == c);
        }
        if c == '.' {
            if !any {
                proof {
                    lemma_scan_fails(text@, i + 1);
                }
                return None;
            }
            done.push(cur);
            cur = 0;
            any = false;
        } else if '0' <= c && c <= '9' {
            let d = (c as u32 - '0' as u32) as u64;
            match cur.checked_mul(10) {
                Some(t) => match t.checked_add(d) {
                    Some(v) => {
                        cur = v;
                        any = true;
                    },
                    None => {
                        proof {
                            lemma_scan_fails(text@, i + 1);
                        }
                        return None;
                    },
                },
                None => {
                    proof {
                        assert(cur * 10 + d > u64::MAX);
                        lemma_scan_fails(text@, i + 1);
                    }
                    return None;
                },
            }
        } else {
            proof {
                lemma_scan_fails(text@, i + 1);
            }
            return None;
        }
        i = i + 1;
    }
    proof {
        assert(text@.subrange(0, n as int) =~= text@);
    }
    if any {
        done.push(cur);
        Some(done)
    } else {
        None
    }
}

/// Once a prefix fails to scan, the whole text does.
proof fn lemma_scan_fails(s: Seq<char>, i: int)
    requires
        0 <= i <= s.len(),
        scan(s.subrange(0, i)) is None,
    ensures
        scan(s) is None,
        numbers_of(s) is None,
    decreases s.len() - i,
{
    if i < s.len() {
        let next = s.subrange(0, i + 1);
        assert(next.drop_last() =~= s.subrange(0, i));
        lemma_scan_fails(s, i + 1);
    } else {
        assert(s.subrange(0, i) =~= s);
    }
}

/// The version a text such as `1.58.0` names: three numbers.
pub open spec fn version_of(s: Seq<char>) -> Option<Version> {
    match numbers_of(s) {
        Some(ns) => if ns.len() == 3 {
            Some(Version { major: ns[0], minor: ns[1], patch: ns[2] })
        } else {
            None
        },
        None => None,
    }
}

/// The bare version a text such as `1.58` or `1.58.0` names.
pub open spec fn bare_version_of(s: Seq<char>) -> Option<BareVersion> {
    match numbers_of(s) {
        Some(ns) => if ns.len() == 2 {
            Some(BareVersion::TwoComponents(ns[0], ns[1]))
        } else if ns.len() == 3 {
            Some(BareVersion::ThreeComponents(ns[0], ns[1], ns[2]))
        } else {
            None
        },
        None => None,
    }
}

impl Version {
    /// Reads `MAJOR.MINOR.PATCH`.
    pub fn parse(text: &str) -> (r: Option<Version>)
        ensures
            r == version_of(text@),
    {
        match parse_numbers(text) {
            Some(ns) => if ns.len() == 3 {
                Some(Version { major: ns[0], minor: ns[1], patch: ns[2] })
            } else {
                None
            },
            None => None,
        }
    }
}

impl BareVersion {
    /// Reads `MAJOR.MINOR` or `MAJOR.MINOR.PATCH`.
    pub fn parse(text: &str) -> (r: Option<BareVersion>)
        ensures
            r == bare_version_of(text@),
    {
        match parse_numbers(text) {
            Some(ns) => if ns.len() == 2 {
                Some(BareVersion::TwoComponents(ns[0], ns[1]))
            } else if ns.len() == 3 {
                Some(BareVersion::ThreeComponents(ns[0], ns[1], ns[2]))
            } else {
                None
            },
            None => None,
        }
    }
}

impl From<Version> for BareVersion {
    fn from(v: Version) -> (r: BareVersion) {
        BareVersion::ThreeComponents(v.major, v.minor, v.patch)
    }
}

impl vstd::std_specs::convert::FromSpecImpl<Version> for BareVersion {
    open spec fn obeys_from_spec() -> bool {
        true
    }

    open spec fn from_spec(v: Version) -> BareVersion {
        BareVersion::ThreeComponents(v.major, v.minor, v.patch)
    }
}

} // verus!
