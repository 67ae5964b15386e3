//! Character and byte helpers shared by the encoders and parsers.

use vstd::prelude::*;
use vstd::string::*;
use vstd::utf8::*;

verus! {

broadcast use vstd::string::group_string_axioms;

/// The characters of `s`, in order.
pub fn chars_of(s: &str) -> (r: Vec<char>)
    ensures
        r@ == s@,
{
    let mut r: Vec<char> = Vec::new();
    for c in iter: s.chars()
        invariant
            r@ == iter.seq().take(iter.index()),
    {
        r.push(c);
    }
    r
}

/// UTF-8 of a sequence splits at any point of the sequence.
pub proof fn lemma_encode_utf8_concat(a: Seq<char>, b: Seq<char>)
    ensures
        encode_utf8(a + b) == encode_utf8(a) + encode_utf8(b),
    decreases a.len(),
{
    if a.len() == 0 {
        assert(a + b =~= b);
    } else {
        lemma_encode_utf8_concat(a.drop_first(), b);
        assert((a + b).drop_first() =~= a.drop_first() + b);
        assert(encode_utf8(a + b) =~= encode_scalar(a[0] as u32) + encode_utf8(a.drop_first() + b));
    }
}

/// UTF-8 of a single character.
pub proof fn lemma_encode_utf8_single(c: char)
    ensures
        encode_utf8(seq![c]) == encode_scalar(c as u32),
{
    assert(seq![c].drop_first() =~= Seq::<char>::empty());
    assert(encode_utf8(seq![c]) =~= encode_scalar(c as u32) + encode_utf8(Seq::<char>::empty()));
}

/// An ASCII character is one byte of UTF-8: the character itself.
pub proof fn lemma_encode_ascii(c: char)
    requires
        (c as u32) < 0x80,
    ensures
        encode_scalar(c as u32) == seq![c as u8],
{
    let v = c as u32;
    assert(v & 0x7f == v) by (bit_vector)
        requires
            v < 0x80,
    ;
}

/// Appends the UTF-8 encoding of `c`.
pub fn push_utf8(out: &mut Vec<u8>, c: char)
    ensures
        final(out)@ == old(out)@ + encode_scalar(c as u32),
{
    let v = c as u32;
    proof {
        char_is_scalar(c);
    }
    if v <= 0x7f {
        out.push((v & 0x7F) as u8);
    } else if v <= 0x7ff {
        out.push(0xC0 | ((v >> 6) & 0x1F) as u8);
        out.push(0x80 | (v & 0x3F) as u8);
    } else if v <= 0xffff {
        out.push(0xE0 | ((v >> 12) & 0x0F) as u8);
        out.push(0x80 | ((v >> 6) & 0x3F) as u8);
        out.push(0x80 | (v & 0x3F) as u8);
    } else {
        out.push(0xF0 | ((v >> 18) & 0x7) as u8);
        out.push(0x80 | ((v >> 12) & 0x3F) as u8);
        out.push(0x80 | ((v >> 6) & 0x3F) as u8);
        out.push(0x80 | (v & 0x3F) as u8);
    }
    assert(final(out)@ =~= old(out)@ + encode_scalar(c as u32));
}

/// The UTF-8 bytes of `s`.
pub fn utf8_bytes(s: &str) -> (r: Vec<u8>)
    ensures
        r@ == encode_utf8(s@),
{
    let b = s.as_bytes();
    let mut r: Vec<u8> = Vec::new();
    let mut i: usize = 0;
    while i < b.len()
        invariant
            b@ == encode_utf8(s@),
            i <= b@.len(),
            r@ == b@.take(i as int),
        decreases b@.len() - i,
    {
        r.push(b[i]);
        i = i + 1;
        assert(r@ =~= b@.take(i as int));
    }
    assert(b@.take(b@.len() as int) =~= b@);
    r
}

/// Whether two strings hold the same characters.
pub fn str_eq(a: &str, b: &str) -> (r: bool)
    ensures
        r == (a@ == b@),
{
    let x = a.as_bytes();
    let y = b.as_bytes();
    proof {
        encode_utf8_decode_utf8(a@);
        encode_utf8_decode_utf8(b@);
    }
    if x.len() != y.len() {
        return false;
    }
    let mut i: usize = 0;
    while i < x.len()
        invariant
            x@ == encode_utf8(a@),
            y@ == encode_utf8(b@),
            x@.len() == y@.len(),
            i <= x@.len(),
            forall|j: int| 0 <= j < i ==> x@[j] == y@[j],
        decreases x@.len() - i,
    {
        if x[i] != y[i] {
            return false;
        }
        i = i + 1;
    }
    assert(x@ =~= y@);
    true
}

/// Cc, the general category of control characters: U+0000 to U+001F and U+007F to U+009F.
pub open spec fn is_control(c: char) -> bool {
    (c as u32) <= 0x1f || (0x7f <= (c as u32) && (c as u32) <= 0x9f)
}

/// Whether `c` is a control character.
pub fn char_is_control(c: char) -> (r: bool)
    ensures
        r == is_control(c),
{
    let v = c as u32;
    v <= 0x1f || (0x7f <= v && v <= 0x9f)
}

/// Whether some character of `s` is a control character.
pub open spec fn has_control(s: Seq<char>) -> bool {
    exists|i: int| 0 <= i < s.len() && is_control(#[trigger] s[i])
}

/// Whether some character of `s` is a control character.
pub fn any_control(s: &str) -> (r: bool)
    ensures
        r == has_control(s@),
{
    let cs = chars_of(s);
    let mut i: usize = 0;
    while i < cs.len()
        invariant
            cs@ == s@,
            i <= cs@.len(),
            forall|j: int| 0 <= j < i ==> !is_control(#[trigger] cs@[j]),
        decreases cs@.len() - i,
    {
        if char_is_control(cs[i]) {
            return true;
        }
        i = i + 1;
    }
    false
}

/// The decimal digits of `n`, most significant first.
pub open spec fn decimal(n: nat) -> Seq<u8>
    decreases n,
{
    if n < 10 {
        seq![(48 + n) as u8]
    } else {
        decimal(n / 10).push((48 + n % 10) as u8)
    }
}

/// Appends the decimal digits of `n`.
pub fn push_decimal(out: &mut Vec<u8>, n: u32)
    ensures
        final(out)@ == old(out)@ + decimal(n as nat),
    decreases n,
{
    if n < 10 {
        out.push((48 + n) as u8);
        assert(final(out)@ =~= old(out)@ + decimal(n as nat));
    } else {
        push_decimal(out, n / 10);
        out.push((48 + n % 10) as u8);
        assert(final(out)@ =~= old(out)@ + decimal(n as nat));
    }
}

/// The digit of value `d` in hexadecimal, uppercase.
pub open spec fn hex_digit(d: nat) -> char {
    if d < 10 {
        (48 + d) as char
    } else {
        (55 + d) as char
    }
}

/// The decimal digits of `n`, most significant first, as characters.
pub open spec fn dec_chars(n: nat) -> Seq<char>
    decreases n,
{
    if n < 10 {
        seq![hex_digit(n)]
    } else {
        dec_chars(n / 10).push(hex_digit(n % 10))
    }
}

/// The hexadecimal digits of `n`, uppercase, most significant first.
pub open spec fn hex_chars(n: nat) -> Seq<char>
    decreases n,
{
    if n < 16 {
        seq![hex_digit(n)]
    } else {
        hex_chars(n / 16).push(hex_digit(n % 16))
    }
}

/// The text of one digit.
fn digit_text(d: u32) -> (r: &'static str)
    requires
        d < 16,
    ensures
        r@ == seq![hex_digit(d as nat)],
{
    if d == 0 {
        proof {
            reveal_strlit("0");
        }
        assert("0"@ =~= seq![hex_digit(0)]);
        return "0";
    }
    if d == 1 {
        proof {
            reveal_strlit("1");
        }
        assert("1"@ =~= seq![hex_digit(1)]);
        return "1";
    }
    if d == 2 {
        proof {
            reveal_strlit("2");
        }
        assert("2"@ =~= seq![hex_digit(2)]);
        return "2";
    }
    if d == 3 {
        proof {
            reveal_strlit("3");
        }
        assert("3"@ =~= seq![hex_digit(3)]);
        return "3";
    }
    if d == 4 {
        proof {
            reveal_strlit("4");
        }
        assert("4"@ =~= seq![hex_digit(4)]);
        return "4";
    }
    if d == 5 {
        proof {
            reveal_strlit("5");
        }
        assert("5"@ =~= seq![hex_digit(5)]);
        return "5";
    }
    if d == 6 {
        proof {
            reveal_strlit("6");
        }
        assert("6"@ =~= seq![hex_digit(6)]);
        return "6";
    }
    if d == 7 {
        proof {
            reveal_strlit("7");
        }
        assert("7"@ =~= seq![hex_digit(7)]);
        return "7";
    }
    if d == 8 {
        proof {
            reveal_strlit("8");
        }
        assert("8"@ =~= seq![hex_digit(8)]);
        return "8";
    }
    if d == 9 {
        proof {
            reveal_strlit("9");
        }
        assert("9"@ =~= seq![hex_digit(9)]);
        return "9";
    }
    if d == 10 {
        proof {
            reveal_strlit("A");
        }
        assert("A"@ =~= seq![hex_digit(10)]);
        return "A";
    }
    if d == 11 {
        proof {
            reveal_strlit("B");
        }
        assert("B"@ =~= seq![hex_digit(11)]);
        return "B";
    }
    if d == 12 {
        proof {
            reveal_strlit("C");
        }
        assert("C"@ =~= seq![hex_digit(12)]);
        return "C";
    }
    if d == 13 {
        proof {
            reveal_strlit("D");
        }
        assert("D"@ =~= seq![hex_digit(13)]);
        return "D";
    }
    if d == 14 {
        proof {
            reveal_strlit("E");
        }
        assert("E"@ =~= seq![hex_digit(14)]);
        return "E";
    }
    proof {
        reveal_strlit("F");
    }
    assert("F"@ =~= seq![hex_digit(15)]);
    "F"
}

/// Appends the decimal digits of `n`.
pub fn append_decimal(out: &mut String, n: u64)
    ensures
        final(out)@ == old(out)@ + dec_chars(n as nat),
    decreases n,
{
    if n < 10 {
        out.append(digit_text(n as u32));
    } else {
        append_decimal(out, n / 10);
        out.append(digit_text((n % 10) as u32));
    }
    assert(final(out)@ =~= old(out)@ + dec_chars(n as nat));
}

/// Appends the hexadecimal digits of `n`, uppercase.
pub fn append_hex(out: &mut String, n: u32)
    ensures
        final(out)@ == old(out)@ + hex_chars(n as nat),
    decreases n,
{
    if n < 16 {
        out.append(digit_text(n));
    } else {
        append_hex(out, n / 16);
        out.append(digit_text(n % 16));
    }
    assert(final(out)@ =~= old(out)@ + hex_chars(n as nat));
}

} // verus!
