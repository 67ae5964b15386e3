//! Scanning of configuration text: whitespace, trimming, searching and unsigned integers.
//!
//! Text is held as a vector of characters and a range `lo..hi` into it; the
//! specifications speak of the characters of that range.

use vstd::prelude::*;

verus! {

/// White_Space, the Unicode property that `char::is_whitespace` tests.
pub open spec fn is_space(c: char) -> bool {
    let v = c as u32;
    (0x9 <= v && v <= 0xd) || v == 0x20 || v == 0x85 || v == 0xa0 || v == 0x1680 || (0x2000
        <= v && v <= 0x200a) || v == 0x2028 || v == 0x2029 || v == 0x202f || v == 0x205f || v
        == 0x3000
}

/// Whether `c` is white space.
pub fn char_is_space(c: char) -> (r: bool)
    ensures
        r == is_space(c),
{
    let v = c as u32;
    (0x9 <= v && v <= 0xd) || v == 0x20 || v == 0x85 || v == 0xa0 || v == 0x1680 || (0x2000 <= v
        && v <= 0x200a) || v == 0x2028 || v == 0x2029 || v == 0x202f || v == 0x205f || v == 0x3000
}

/// `s` without its leading white space.
pub open spec fn trim_start(s: Seq<char>) -> Seq<char>
    decreases s.len(),
{
    if s.len() > 0 && is_space(s[0]) {
        trim_start(s.drop_first())
    } else {
        s
    }
}

/// `s` without its trailing white space.
pub open spec fn trim_end(s: Seq<char>) -> Seq<char>
    decreases s.len(),
{
    if s.len() > 0 && is_space(s.last()) {
        trim_end(s.drop_last())
    } else {
        s
    }
}

/// `s` without leading and trailing white space, as `str::trim` gives it.
pub open spec fn trim(s: Seq<char>) -> Seq<char> {
    trim_end(trim_start(s))
}

/// The predicate "is the character `c`".
pub open spec fn is_char(c: char) -> spec_fn(char) -> bool {
    |x: char| x == c
}

/// The predicate "is white space".
pub open spec fn is_blank() -> spec_fn(char) -> bool {
    |x: char| is_space(x)
}

/// Index of the first character of `s` that satisfies `p`, or -1 where none does.
pub open spec fn position(s: Seq<char>, p: spec_fn(char) -> bool) -> int
    decreases s.len(),
{
    if s.len() == 0 {
        -1
    } else if p(s[0]) {
        0
    } else {
        let r = position(s.drop_first(), p);
        if r < 0 {
            -1
        } else {
            r + 1
        }
    }
}

/// What `position` is: the first index whose character satisfies `p`.
pub proof fn lemma_position(s: Seq<char>, p: spec_fn(char) -> bool)
    ensures
        -1 <= position(s, p) < s.len(),
        position(s, p) >= 0 ==> p(s[position(s, p)]),
        forall|j: int| 0 <= j < position(s, p) ==> !p(#[trigger] s[j]),
        position(s, p) < 0 ==> forall|j: int| 0 <= j < s.len() ==> !p(#[trigger] s[j]),
    decreases s.len(),
{
    if s.len() > 0 && !p(s[0]) {
        let t = s.drop_first();
        lemma_position(t, p);
        assert forall|j: int| 0 < j < s.len() implies s[j] == t[j - 1] by {}
        assert forall|j: int| 0 <= j < position(s, p) implies !p(#[trigger] s[j]) by {
            if j > 0 {
                assert(s[j] == t[j - 1]);
            }
        }
        if position(s, p) < 0 {
            assert forall|j: int| 0 <= j < s.len() implies !p(#[trigger] s[j]) by {
                if j > 0 {
                    assert(s[j] == t[j - 1]);
                }
            }
        }
    }
}

/// An index before which no character satisfies `p` is `position`, where it is one or the end.
pub proof fn lemma_position_is(s: Seq<char>, p: spec_fn(char) -> bool, k: int)
    requires
        0 <= k <= s.len(),
        forall|j: int| 0 <= j < k ==> !p(#[trigger] s[j]),
        k < s.len() ==> p(s[k]),
    ensures
        position(s, p) == (if k < s.len() {
            k
        } else {
            -1
        }),
    decreases s.len(),
{
    if s.len() > 0 && k > 0 {
        let t = s.drop_first();
        assert(!p(s[0]));
        assert forall|j: int| 0 <= j < k - 1 implies !p(#[trigger] t[j]) by {
            assert(t[j] == s[j + 1]);
        }
        if k < s.len() {
            assert(t[k - 1] == s[k]);
        }
        lemma_position_is(t, p, k - 1);
    }
}

/// The first index in `lo..hi` whose character is `c`, if any.
pub fn find_char(cs: &Vec<char>, lo: usize, hi: usize, c: char) -> (r: Option<usize>)
    requires
        lo <= hi <= cs@.len(),
    ensures
        match r {
            Some(i) => lo <= i < hi && i - lo == position(cs@.subrange(lo as int, hi as int), is_char(c)),
            None => position(cs@.subrange(lo as int, hi as int), is_char(c)) == -1,
        },
{
    let ghost s = cs@.subrange(lo as int, hi as int);
    let mut i = lo;
    while i < hi
        invariant
            lo <= i <= hi <= cs@.len(),
            s == cs@.subrange(lo as int, hi as int),
            forall|j: int| 0 <= j < i - lo ==> !is_char(c)(#[trigger] s[j]),
        decreases hi - i,
    {
        if cs[i] == c {
            proof {
                lemma_position_is(s, is_char(c), i - lo);
            }
            return Some(i);
        }
        i = i + 1;
    }
    proof {
        lemma_position_is(s, is_char(c), s.len() as int);
    }
    None
}

/// The first index in `lo..hi` whose character is white space, if any.
pub fn find_space(cs: &Vec<char>, lo: usize, hi: usize) -> (r: Option<usize>)
    requires
        lo <= hi <= cs@.len(),
    ensures
        match r {
            Some(i) => lo <= i < hi && i - lo == position(cs@.subrange(lo as int, hi as int), is_blank()),
            None => position(cs@.subrange(lo as int, hi as int), is_blank()) == -1,
        },
{
    let ghost s = cs@.subrange(lo as int, hi as int);
    let mut i = lo;
    while i < hi
        invariant
            lo <= i <= hi <= cs@.len(),
            s == cs@.subrange(lo as int, hi as int),
            forall|j: int| 0 <= j < i - lo ==> !is_blank()(#[trigger] s[j]),
        decreases hi - i,
    {
        if char_is_space(cs[i]) {
            proof {
                lemma_position_is(s, is_blank(), i - lo);
            }
            return Some(i);
        }
        i = i + 1;
    }
    proof {
        lemma_position_is(s, is_blank(), s.len() as int);
    }
    None
}

/// The bounds of the range `lo..hi` without its leading and trailing white space.
pub fn trim_bounds(cs: &Vec<char>, lo: usize, hi: usize) -> (r: (usize, usize))
    requires
        lo <= hi <= cs@.len(),
    ensures
        lo <= r.0 <= r.1 <= hi,
        cs@.subrange(r.0 as int, r.1 as int) == trim(cs@.subrange(lo as int, hi as int)),
{
    let mut a = lo;
    while a < hi && char_is_space(cs[a])
        invariant
            lo <= a <= hi <= cs@.len(),
            trim_start(cs@.subrange(lo as int, hi as int)) == trim_start(
                cs@.subrange(a as int, hi as int),
            ),
        decreases hi - a,
    {
        assert(cs@.subrange(a as int, hi as int).drop_first() =~= cs@.subrange(
            a + 1,
            hi as int,
        ));
        a = a + 1;
    }
    assert(trim_start(cs@.subrange(a as int, hi as int)) == cs@.subrange(a as int, hi as int));
    let mut b = hi;
    while b > a && char_is_space(cs[b - 1])
        invariant
            lo <= a <= b <= hi <= cs@.len(),
            trim_end(cs@.subrange(a as int, hi as int)) == trim_end(
                cs@.subrange(a as int, b as int),
            ),
        decreases b - a,
    {
        assert(cs@.subrange(a as int, b as int).drop_last() =~= cs@.subrange(
            a as int,
            b - 1,
        ));
        b = b - 1;
    }
    assert(trim_end(cs@.subrange(a as int, b as int)) == cs@.subrange(a as int, b as int));
    (a, b)
}

/// Why a text is not an unsigned integer, as std's `ParseIntError` tells it.
#[derive(Clone, Copy, Debug, PartialEq, Eq)]
pub enum IntError {
    Empty,
    InvalidDigit,
    PosOverflow,
}

/// The text std gives each integer error.
pub open spec fn int_error_text(e: IntError) -> Seq<char> {
    match e {
        IntError::Empty => "cannot parse integer from empty string"@,
        IntError::InvalidDigit => "invalid digit found in string"@,
        IntError::PosOverflow => "number too large to fit in target type"@,
    }
}

impl IntError {
    /// The text std gives this error.
    pub fn message(&self) -> (r: String)
        ensures
            r@ == int_error_text(*self),
    {
        match self {
            IntError::Empty => String::from_str("cannot parse integer from empty string"),
            IntError::InvalidDigit => String::from_str("invalid digit found in string"),
            IntError::PosOverflow => String::from_str("number too large to fit in target type"),
        }
    }
}

/// The value of `c` as a digit of `radix` (10 or 16, either case for 16), or -1.
pub open spec fn digit_value(c: char, radix: nat) -> int {
    let v = c as u32;
    if 0x30 <= v && v <= 0x39 {
        v - 0x30
    } else if radix == 16 && 0x61 <= v && v <= 0x66 {
        v - 0x61 + 10
    } else if radix == 16 && 0x41 <= v && v <= 0x46 {
        v - 0x41 + 10
    } else {
        -1
    }
}

/// Reads the digits of `s` after the value `acc`, left to right, up to `max`.
pub open spec fn scan_digits(acc: nat, s: Seq<char>, radix: nat, max: nat) -> Result<nat, IntError>
    decreases s.len(),
{
    if s.len() == 0 {
        Ok(acc)
    } else {
        let d = digit_value(s[0], radix);
        if d < 0 {
            Err(IntError::InvalidDigit)
        } else if acc * radix + d > max {
            Err(IntError::PosOverflow)
        } else {
            scan_digits((acc * radix + d) as nat, s.drop_first(), radix, max)
        }
    }
}

/// The unsigned integer of at most `max` that `s` writes in `radix`, as `from_str_radix`
/// reads it: an optional `+`, then digits.
pub open spec fn parse_uint(s: Seq<char>, radix: nat, max: nat) -> Result<nat, IntError> {
    if s.len() == 0 {
        Err(IntError::Empty)
    } else if s.len() == 1 && (s[0] == '+' || s[0] == '-') {
        Err(IntError::InvalidDigit)
    } else if s[0] == '+' {
        scan_digits(0, s.drop_first(), radix, max)
    } else {
        scan_digits(0, s, radix, max)
    }
}

fn digit_of(c: char, radix: u32) -> (r: Option<u32>)
    requires
        radix == 10 || radix == 16,
    ensures
        match r {
            Some(d) => digit_value(c, radix as nat) == d && d < radix,
            None => digit_value(c, radix as nat) < 0,
        },
{
    let v = c as u32;
    if 0x30 <= v && v <= 0x39 {
        Some(v - 0x30)
    } else if radix == 16 && 0x61 <= v && v <= 0x66 {
        Some(v - 0x61 + 10)
    } else if radix == 16 && 0x41 <= v && v <= 0x46 {
        Some(v - 0x41 + 10)
    } else {
        None
    }
}

/// Reads the range `lo..hi` as an unsigned integer of at most `max` in `radix`.
pub fn parse_uint_in(cs: &Vec<char>, lo: usize, hi: usize, radix: u32, max: u64) -> (r: Result<
    u64,
    IntError,
>)
    requires
        lo <= hi <= cs@.len(),
        radix == 10 || radix == 16,
    ensures
        match parse_uint(cs@.subrange(lo as int, hi as int), radix as nat, max as nat) {
            Ok(n) => r == Ok::<u64, IntError>(n as u64) && n <= max,
            Err(e) => r == Err::<u64, IntError>(e),
        },
{
    let ghost s = cs@.subrange(lo as int, hi as int);
    if lo == hi {
        return Err(IntError::Empty);
    }
    if hi - lo == 1 && (cs[lo] == '+' || cs[lo] == '-') {
        return Err(IntError::InvalidDigit);
    }
    let mut i = lo;
    if cs[lo] == '+' {
        i = lo + 1;
        assert(s.drop_first() =~= cs@.subrange(i as int, hi as int));
    } else {
        assert(s =~= cs@.subrange(i as int, hi as int));
    }
    let mut acc: u64 = 0;
    while i < hi
        invariant
            lo <= i <= hi <= cs@.len(),
            radix == 10 || radix == 16,
            acc <= max,
            s == cs@.subrange(lo as int, hi as int),
            parse_uint(s, radix as nat, max as nat) == scan_digits(
                acc as nat,
                cs@.subrange(i as int, hi as int),
                radix as nat,
                max as nat,
            ),
        decreases hi - i,
    {
        let ghost t = cs@.subrange(i as int, hi as int);
        assert(t[0] == cs@[i as int]);
        assert(t.drop_first() =~= cs@.subrange(i + 1, hi as int));
        match digit_of(cs[i], radix) {
            None => {
                return Err(IntError::InvalidDigit);
            },
            Some(d) => {
                let next: u128 = if radix == 10 {
                    (acc as u128) * 10 + (d as u128)
                } else {
                    (acc as u128) * 16 + (d as u128)
                };
                assert(next == (acc as nat) * (radix as nat) + d);
                if next > max as u128 {
                    return Err(IntError::PosOverflow);
                }
                acc = next as u64;
            },
        }
        i = i + 1;
    }
    Ok(acc)
}

/// The value of `s` as std reads a `bool`: exactly `true` or `false`.
pub open spec fn parse_bool(s: Seq<char>) -> Option<bool> {
    if s == seq!['t', 'r', 'u', 'e'] {
        Some(true)
    } else if s == seq!['f', 'a', 'l', 's', 'e'] {
        Some(false)
    } else {
        None
    }
}

/// Reads the range `lo..hi` as a `bool`.
pub fn parse_bool_in(cs: &Vec<char>, lo: usize, hi: usize) -> (r: Option<bool>)
    requires
        lo <= hi <= cs@.len(),
    ensures
        r == parse_bool(cs@.subrange(lo as int, hi as int)),
{
    let ghost s = cs@.subrange(lo as int, hi as int);
    if hi - lo == 4 && cs[lo] == 't' && cs[lo + 1] == 'r' && cs[lo + 2] == 'u' && cs[lo + 3]
        == 'e' {
        assert(s =~= seq!['t', 'r', 'u', 'e']);
        return Some(true);
    }
    if hi - lo == 5 && cs[lo] == 'f' && cs[lo + 1] == 'a' && cs[lo + 2] == 'l' && cs[lo + 3]
        == 's' && cs[lo + 4] == 'e' {
        assert(s =~= seq!['f', 'a', 'l', 's', 'e']);
        return Some(false);
    }
    proof {
        let tr = seq!['t', 'r', 'u', 'e'];
        let fa = seq!['f', 'a', 'l', 's', 'e'];
        assert(tr.len() == 4 && tr[0] == 't' && tr[1] == 'r' && tr[2] == 'u' && tr[3] == 'e');
        assert(fa.len() == 5 && fa[0] == 'f' && fa[1] == 'a' && fa[2] == 'l' && fa[3] == 's'
            && fa[4] == 'e');
        if s == tr {
            assert(s[0] == cs@[lo as int] && s[1] == cs@[lo + 1] && s[2] == cs@[lo + 2] && s[3]
                == cs@[lo + 3]);
        }
        if s == fa {
            assert(s[0] == cs@[lo as int] && s[1] == cs@[lo + 1] && s[2] == cs@[lo + 2] && s[3]
                == cs@[lo + 3] && s[4] == cs@[lo + 4]);
        }
    }
    None
}

} // verus!
